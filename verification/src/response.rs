//! The responses that call control makes (RFC 3261 §8.2.6).

use std::collections::hash_map::RandomState;
use std::hash::BuildHasher;
use vstd::prelude::*;
use vstd::string::{StrSliceExecFns, StringExecFns};

use crate::sip::{
    build_response_skeleton, header, law_header_set_is_header_read,
    law_response_goes_back_the_way_of_the_request,
    law_response_takes_over_what_names_the_request, law_set_field_has_one_value,
    law_values_have_no_case, skeleton, values_of, Field, ResponseView, SipRequest, SipResponse,
};
use crate::text::{
    after, before, chars_of, decimal, eq_ignore_ascii_case, find_char, folded, is_digit, join,
    law_pieces_stand_between_separators, lemma_decimal, lemma_position, lemma_position_is,
    same_ignoring_case, split, split_at_char, to_decimal, trim, trim_of,
};

verus! {

/// The methods that are handled for the carrier, as an `Allow` value (RFC 3261
/// §20.5).
pub const SUPPORTED_METHODS_ALLOW: &'static str = "INVITE, ACK, BYE, CANCEL, OPTIONS";

/// Calls `std::collections::hash_map::RandomState::new`, whose keys are random.
/// Nothing is stated of them.
#[verifier::external_body]
fn random_keys() -> (r: RandomState) {
    RandomState::new()
}

/// Calls `std::hash::BuildHasher::hash_one`. The hash depends on random keys, so
/// nothing is stated of it.
#[verifier::external_body]
fn hash_with(keys: &RandomState, value: u64) -> (r: u64) {
    keys.hash_one(value)
}

/// Whether `tag` can stand as the value of a `tag` parameter here: some digits.
pub open spec fn is_tag(tag: Seq<char>) -> bool {
    tag.len() > 0 && forall|i: int| 0 <= i < tag.len() ==> is_digit(#[trigger] tag[i])
}

/// A tag picked at random (RFC 3261 §19.3).
pub fn new_tag() -> (r: String)
    ensures
        is_tag(r@),
{
    let n: u64 = hash_with(&random_keys(), 0);
    proof {
        lemma_decimal(n as nat);
    }
    to_decimal(n)
}

/// What stands behind the last `>` of an address, all of it where there is none.
pub open spec fn behind_uri(value: Seq<char>) -> Seq<char>
    decreases value.len(),
{
    if value.len() == 0 || value.last() == '>' {
        Seq::empty()
    } else {
        behind_uri(value.drop_last()).push(value.last())
    }
}

/// Whether `piece` is a parameter called `tag`, in any spelling (RFC 3261
/// §7.3.1), with a value.
pub open spec fn is_tag_param(piece: Seq<char>) -> bool {
    piece.contains('=') && same_ignoring_case(trim(before(piece, '=')), "tag"@)
}

/// Whether the address in a `To` field has a tag.
pub open spec fn has_tag(to: Seq<char>) -> bool {
    let pieces = split(behind_uri(to), ';');
    exists|i: int| 1 <= i < pieces.len() && is_tag_param(#[trigger] pieces[i])
}

/// Whether the address `to` of a `To` field has a tag. Parameter names have no
/// case (RFC 3261 §7.3.1).
pub fn has_to_tag(to: &str) -> (r: bool)
    ensures
        r == has_tag(to@),
{
    let params: &str = after_last_bracket(to);
    let pieces: Vec<String> = split_at_char(params, ';');
    let ghost all = split(behind_uri(to@), ';');
    assert(all == pieces@.map_values(|p: String| p@));
    let mut i: usize = 1;
    while i < pieces.len()
        invariant
            1 <= i,
            all == split(behind_uri(to@), ';'),
            all == pieces@.map_values(|p: String| p@),
            forall|k: int| 1 <= k < i && k < all.len() ==> !is_tag_param(#[trigger] all[k]),
        decreases pieces.len() - i,
    {
        let piece: &str = pieces[i].as_str();
        assert(piece@ == all[i as int]);
        let n: usize = piece.unicode_len();
        let p: usize = find_char(piece, '=');
        if p < n {
            let name: &str = piece.substring_char(0, p);
            assert(name@ =~= before(piece@, '='));
            if eq_ignore_ascii_case(trim_of(name), "tag") {
                assert(is_tag_param(all[i as int]));
                return true;
            }
        }
        i = i + 1;
    }
    false
}

fn after_last_bracket<'a>(s: &'a str) -> (r: &'a str)
    ensures
        r@ == behind_uri(s@),
{
    let x: Vec<char> = chars_of(s);
    let n: usize = x.len();
    let mut i: usize = n;
    while i > 0 && x[i - 1] != '>'
        invariant
            i <= n,
            n == x.len(),
            x@ == s@,
            forall|k: int| i <= k < n ==> x@[k] != '>',
        decreases i,
    {
        i = i - 1;
    }
    proof {
        lemma_behind_uri(s@, i as int);
        assert(s@.subrange(i as int, n as int) =~= s@.skip(i as int));
    }
    s.substring_char(i, n)
}

proof fn lemma_behind_uri(s: Seq<char>, i: int)
    requires
        0 <= i <= s.len(),
        i > 0 ==> s[i - 1] == '>',
        forall|k: int| i <= k < s.len() ==> s[k] != '>',
    ensures
        behind_uri(s) == s.skip(i),
    decreases s.len(),
{
    if i == s.len() {
        assert(s.skip(i) =~= Seq::empty());
    } else {
        let front = s.drop_last();
        lemma_behind_uri(front, i);
        assert(front.skip(i).push(s.last()) =~= s.skip(i));
    }
}

/// `resp` with `tag` as the tag of its `To` field where that has none (RFC 3261
/// §8.2.6.2).
pub open spec fn tagged(resp: ResponseView, tag: Seq<char>) -> ResponseView {
    match header(resp.headers, "to"@) {
        Some(to) if !has_tag(to) => resp.with("To"@, to + ";tag="@ + tag),
        _ => resp,
    }
}

/// Gives the `To` field of `resp` the tag `tag` where it has none. A tag that is
/// there is kept, however its name is spelt.
pub fn ensure_to_tag_with(resp: &mut SipResponse, tag: &str)
    ensures
        final(resp)@ == tagged(old(resp)@, tag@),
{
    let new: Option<String> = match resp.headers.get("to") {
        Some(to) => {
            if has_to_tag(to) {
                None
            } else {
                Some(join(join(to, ";tag=").as_str(), tag))
            }
        },
        None => None,
    };
    if let Some(value) = new {
        resp.headers.set("To", value.as_str());
    }
    assert(resp@ =~= tagged(old(resp)@, tag@));
}

/// Gives the `To` field of `resp` a tag picked at random where it has none.
pub fn ensure_to_tag(resp: &mut SipResponse)
    ensures
        exists|tag: Seq<char>|
            is_tag(tag) && final(resp)@ == #[trigger] tagged(old(resp)@, tag),
{
    let tag: String = new_tag();
    ensure_to_tag_with(resp, tag.as_str());
}

/// A final response without a body: `To` has the tag `tag` where the request's
/// has none.
pub open spec fn final_response_view(
    request: SipRequest,
    status: u16,
    reason: Seq<char>,
    tag: Seq<char>,
) -> ResponseView {
    tagged(skeleton(request.headers@, status, reason), tag)
}

/// A final response without a body to `request`.
pub fn final_response(request: &SipRequest, status: u16, reason: &str, tag: &str) -> (r:
    SipResponse)
    ensures
        r@ == final_response_view(*request, status, reason@, tag@),
{
    let mut r: SipResponse = build_response_skeleton(request, status, reason);
    ensure_to_tag_with(&mut r, tag);
    r
}

/// A response to `request` that lists the methods that are handled.
pub open spec fn with_allow_view(request: SipRequest, status: u16, reason: Seq<char>) -> ResponseView {
    skeleton(request.headers@, status, reason).with("Allow"@, SUPPORTED_METHODS_ALLOW@)
}

/// A response to `request` that lists the methods that are handled (RFC 3261
/// §8.2.1).
pub fn response_with_allow(request: &SipRequest, status: u16, reason: &str) -> (r: SipResponse)
    ensures
        r@ == with_allow_view(*request, status, reason@),
{
    let mut r: SipResponse = build_response_skeleton(request, status, reason);
    r.headers.set("Allow", SUPPORTED_METHODS_ALLOW);
    r
}

/// `resp` with the session description `body`, where that is not empty.
pub open spec fn with_sdp(resp: ResponseView, body: Seq<u8>) -> ResponseView {
    if body.len() > 0 {
        resp.with("Content-Type"@, "application/sdp"@).with_body(body)
    } else {
        resp
    }
}

/// A copy of some bytes.
pub fn copy_bytes(bytes: &[u8]) -> (r: Vec<u8>)
    ensures
        r@ == bytes@,
{
    let mut r: Vec<u8> = Vec::new();
    r.extend_from_slice(bytes);
    assert(r@ =~= bytes@);
    r
}

/// Puts the session description `body` into `resp`, where it is not empty.
pub fn set_sdp(resp: &mut SipResponse, body: &[u8])
    ensures
        final(resp)@ == with_sdp(old(resp)@, body@),
{
    if body.len() > 0 {
        resp.headers.set("Content-Type", "application/sdp");
        resp.body = copy_bytes(body);
    }
    assert(resp@ =~= with_sdp(old(resp)@, body@));
}

/// The 200 response to an extension's INVITE.
pub open spec fn answer_to_ext(
    invite: SipRequest,
    body: Seq<u8>,
    contact_uri: Seq<char>,
    tag: Seq<char>,
) -> ResponseView {
    tagged(
        with_sdp(skeleton(invite.headers@, 200, "OK"@), body).with(
            "Contact"@,
            "<"@ + contact_uri + ">"@,
        ),
        tag,
    )
}

/// The 200 response to an extension's INVITE, with the tag `tag`.
pub fn build_2xx_to_ext_with(
    invite: &SipRequest,
    body: &[u8],
    contact_uri: &str,
    tag: &str,
) -> (r: SipResponse)
    ensures
        r@ == answer_to_ext(*invite, body@, contact_uri@, tag@),
{
    let mut resp: SipResponse = build_response_skeleton(invite, 200, "OK");
    set_sdp(&mut resp, body);
    let contact: String = join(join("<", contact_uri).as_str(), ">");
    resp.headers.set("Contact", contact.as_str());
    ensure_to_tag_with(&mut resp, tag);
    resp
}

/// The 200 response to an extension's INVITE: the session description `body`,
/// where there is one, and a `Contact` field, without which the extension could
/// send neither ACK nor BYE (RFC 3261 §13.3.1.4).
pub fn build_2xx_to_ext(invite: &SipRequest, body: &[u8], contact_uri: &str) -> (r: SipResponse)
    ensures
        exists|tag: Seq<char>|
            is_tag(tag) && r@ == #[trigger] answer_to_ext(*invite, body@, contact_uri@, tag),
{
    let tag: String = new_tag();
    build_2xx_to_ext_with(invite, body, contact_uri, tag.as_str())
}

/// The refusal of an INVITE that comes too soon.
pub open spec fn too_soon(invite: SipRequest, retry_after_secs: u64, tag: Seq<char>) -> ResponseView {
    tagged(
        skeleton(invite.headers@, 503, "Service Unavailable"@).with(
            "Retry-After"@,
            decimal(retry_after_secs as nat),
        ),
        tag,
    )
}

/// The refusal of an INVITE that comes too soon, with the tag `tag`.
pub fn build_503_with_retry_after_and_tag(
    invite: &SipRequest,
    retry_after_secs: u64,
    tag: &str,
) -> (r: SipResponse)
    ensures
        r@ == too_soon(*invite, retry_after_secs, tag@),
{
    let mut resp: SipResponse = build_response_skeleton(invite, 503, "Service Unavailable");
    resp.headers.set("Retry-After", to_decimal(retry_after_secs).as_str());
    ensure_to_tag_with(&mut resp, tag);
    resp
}

/// The refusal of an INVITE that comes too soon: 503, with the seconds to wait in
/// `Retry-After` (RFC 3261 §20.33 and §21.5.4).
pub fn build_503_with_retry_after(invite: &SipRequest, retry_after_secs: u64) -> (r: SipResponse)
    ensures
        exists|tag: Seq<char>|
            is_tag(tag) && r@ == #[trigger] too_soon(*invite, retry_after_secs, tag),
{
    let tag: String = new_tag();
    build_503_with_retry_after_and_tag(invite, retry_after_secs, tag.as_str())
}

proof fn lemma_behind_uri_extends(value: Seq<char>, more: Seq<char>)
    requires
        !more.contains('>'),
    ensures
        behind_uri(value + more) == behind_uri(value) + more,
    decreases more.len(),
{
    if more.len() == 0 {
        assert(value + more =~= value);
        assert(behind_uri(value) + more =~= behind_uri(value));
    } else {
        let front = more.drop_last();
        assert(more.contains(more.last()));
        assert(!front.contains('>')) by {
            if front.contains('>') {
                let i = choose|i: int| 0 <= i < front.len() && front[i] == '>';
                assert(more[i] == '>');
            }
        }
        lemma_behind_uri_extends(value, front);
        assert((value + more).drop_last() =~= value + front);
        assert((behind_uri(value) + front).push(more.last()) =~= behind_uri(value) + more);
    }
}

proof fn lemma_split_last(a: Seq<char>, sep: char, b: Seq<char>)
    requires
        !b.contains(sep),
    ensures
        split(a + seq![sep] + b, sep).len() >= 2,
        split(a + seq![sep] + b, sep).last() == b,
    decreases a.len(),
{
    let s = a + seq![sep] + b;
    if a.contains(sep) {
        lemma_position(a, sep);
        let p = crate::text::position(a, sep);
        assert(forall|i: int| 0 <= i < p ==> s[i] == a[i]);
        lemma_position_is(s, sep, p);
        let rest = a.skip(p + 1);
        lemma_split_last(rest, sep, b);
        assert(s.skip(p + 1) =~= rest + seq![sep] + b);
    } else {
        let p = a.len() as int;
        assert forall|i: int| 0 <= i < p implies s[i] != sep by {
            assert(a.contains(a[i]));
        }
        lemma_position_is(s, sep, p);
        lemma_position(b, sep);
        assert(s.skip(p + 1) =~= b);
        assert(split(b, sep) =~= seq![b]);
    }
}

/// An address to which a tag is added has a tag.
pub proof fn law_added_tag_is_found(to: Seq<char>, tag: Seq<char>)
    requires
        is_tag(tag),
    ensures
        has_tag(to + ";tag="@ + tag),
{
    reveal_strlit(";tag=");
    reveal_strlit("tag");
    let param = seq!['t', 'a', 'g', '='] + tag;
    let more = seq![';'] + param;
    let all = to + ";tag="@ + tag;
    assert(all =~= to + more);
    assert(!more.contains('>')) by {
        if more.contains('>') {
            let i = choose|i: int| 0 <= i < more.len() && more[i] == '>';
            if i >= 5 {
                assert(is_digit(tag[i - 5]));
            }
        }
    }
    lemma_behind_uri_extends(to, more);
    assert(!param.contains(';')) by {
        if param.contains(';') {
            let i = choose|i: int| 0 <= i < param.len() && param[i] == ';';
            if i >= 4 {
                assert(is_digit(tag[i - 4]));
            }
        }
    }
    let behind = behind_uri(to);
    lemma_split_last(behind, ';', param);
    assert(behind + more =~= behind + seq![';'] + param);
    let pieces = split(behind_uri(all), ';');
    let last = pieces.len() - 1;
    assert(pieces[last] == param);
    assert(param[3] == '=');
    lemma_position_is(param, '=', 3);
    let name = before(param, '=');
    assert(name =~= "tag"@);
    assert(trim(name) == name);
    assert(is_tag_param(pieces[last]));
}

/// After [`ensure_to_tag`] a response with a `To` field has a tag in it, under
/// any spelling of the field's name; one that was there is kept; no other field
/// changes; and a second call changes nothing.
pub proof fn law_to_tag_is_ensured_once(
    resp: ResponseView,
    tag: Seq<char>,
    again: Seq<char>,
    other: Seq<char>,
)
    requires
        is_tag(tag),
    ensures
        header(resp.headers, "to"@) is Some ==> {
            let to = header(tagged(resp, tag).headers, "to"@);
            to is Some && has_tag(to->0)
        },
        header(resp.headers, "to"@) is Some && has_tag(header(resp.headers, "to"@)->0)
            ==> tagged(resp, tag) == resp,
        tagged(tagged(resp, tag), again) == tagged(resp, tag),
        !same_ignoring_case("To"@, other) ==> header(tagged(resp, tag).headers, other) == header(
            resp.headers,
            other,
        ),
{
    reveal_strlit("to");
    reveal_strlit("To");
    assert(crate::text::folded("To"@) =~= crate::text::folded("to"@));
    if let Some(to) = header(resp.headers, "to"@) {
        law_added_tag_is_found(to, tag);
        law_header_set_is_header_read(resp.headers, "To"@, to + ";tag="@ + tag, "to"@);
        law_header_set_is_header_read(resp.headers, "To"@, to + ";tag="@ + tag, other);
    }
}

/// The `Contact` field of a 200 response to an extension holds the given URI,
/// whatever the request and the session description are.
pub proof fn law_answer_has_a_contact(
    invite: SipRequest,
    body: Seq<u8>,
    contact_uri: Seq<char>,
    tag: Seq<char>,
)
    requires
        is_tag(tag),
    ensures
        header(answer_to_ext(invite, body, contact_uri, tag).headers, "contact"@) == Some(
            "<"@ + contact_uri + ">"@,
        ),
{
    reveal_strlit("contact");
    reveal_strlit("Contact");
    reveal_strlit("To");
    let plain = with_sdp(skeleton(invite.headers@, 200, "OK"@), body);
    let value = "<"@ + contact_uri + ">"@;
    assert(crate::text::folded("Contact"@) =~= crate::text::folded("contact"@));
    assert(crate::text::folded("To"@).len() != crate::text::folded("contact"@).len());
    law_header_set_is_header_read(plain.headers, "Contact"@, value, "contact"@);
    law_to_tag_is_ensured_once(plain.with("Contact"@, value), tag, tag, "contact"@);
}

/// A refusal of an INVITE that comes too soon says how long to wait.
pub proof fn law_refusal_has_a_retry_after(
    invite: SipRequest,
    retry_after_secs: u32,
    tag: Seq<char>,
)
    requires
        is_tag(tag),
    ensures
        ({
            let resp = too_soon(invite, retry_after_secs as u64, tag);
            let value = header(resp.headers, "retry-after"@);
            &&& resp.status == 503
            &&& value is Some
            &&& crate::rate_limiter::retry_after_value(value->0) == Some(retry_after_secs)
        }),
{
    reveal_strlit("retry-after");
    reveal_strlit("Retry-After");
    reveal_strlit("To");
    let plain = skeleton(invite.headers@, 503, "Service Unavailable"@);
    let value = decimal(retry_after_secs as nat);
    assert(crate::text::folded("Retry-After"@) =~= crate::text::folded("retry-after"@));
    assert(crate::text::folded("To"@).len() != crate::text::folded("retry-after"@).len());
    law_header_set_is_header_read(plain.headers, "Retry-After"@, value, "retry-after"@);
    law_to_tag_is_ensured_once(plain.with("Retry-After"@, value), tag, tag, "retry-after"@);
    crate::rate_limiter::law_retry_after_is_read_back(retry_after_secs);
}

pub(crate) proof fn lemma_field_names()
    ensures
        !same_ignoring_case("Contact"@, "via"@),
        !same_ignoring_case("Contact"@, "from"@),
        !same_ignoring_case("Contact"@, "to"@),
        !same_ignoring_case("Contact"@, "call-id"@),
        !same_ignoring_case("Contact"@, "cseq"@),
        same_ignoring_case("Contact"@, "contact"@),
        !same_ignoring_case("Contact"@, "content-type"@),
        !same_ignoring_case("Contact"@, "retry-after"@),
        !same_ignoring_case("Contact"@, "allow"@),
        !same_ignoring_case("Contact"@, "min-se"@),
        !same_ignoring_case("Contact"@, "session-expires"@),
        !same_ignoring_case("Contact"@, "require"@),
        !same_ignoring_case("Content-Type"@, "via"@),
        !same_ignoring_case("Content-Type"@, "from"@),
        !same_ignoring_case("Content-Type"@, "to"@),
        !same_ignoring_case("Content-Type"@, "call-id"@),
        !same_ignoring_case("Content-Type"@, "cseq"@),
        !same_ignoring_case("Content-Type"@, "contact"@),
        same_ignoring_case("Content-Type"@, "content-type"@),
        !same_ignoring_case("Content-Type"@, "retry-after"@),
        !same_ignoring_case("Content-Type"@, "allow"@),
        !same_ignoring_case("Content-Type"@, "min-se"@),
        !same_ignoring_case("Content-Type"@, "session-expires"@),
        !same_ignoring_case("Content-Type"@, "require"@),
        !same_ignoring_case("Retry-After"@, "via"@),
        !same_ignoring_case("Retry-After"@, "from"@),
        !same_ignoring_case("Retry-After"@, "to"@),
        !same_ignoring_case("Retry-After"@, "call-id"@),
        !same_ignoring_case("Retry-After"@, "cseq"@),
        !same_ignoring_case("Retry-After"@, "contact"@),
        !same_ignoring_case("Retry-After"@, "content-type"@),
        same_ignoring_case("Retry-After"@, "retry-after"@),
        !same_ignoring_case("Retry-After"@, "allow"@),
        !same_ignoring_case("Retry-After"@, "min-se"@),
        !same_ignoring_case("Retry-After"@, "session-expires"@),
        !same_ignoring_case("Retry-After"@, "require"@),
        !same_ignoring_case("Allow"@, "via"@),
        !same_ignoring_case("Allow"@, "from"@),
        !same_ignoring_case("Allow"@, "to"@),
        !same_ignoring_case("Allow"@, "call-id"@),
        !same_ignoring_case("Allow"@, "cseq"@),
        !same_ignoring_case("Allow"@, "contact"@),
        !same_ignoring_case("Allow"@, "content-type"@),
        !same_ignoring_case("Allow"@, "retry-after"@),
        same_ignoring_case("Allow"@, "allow"@),
        !same_ignoring_case("Allow"@, "min-se"@),
        !same_ignoring_case("Allow"@, "session-expires"@),
        !same_ignoring_case("Allow"@, "require"@),
        !same_ignoring_case("Min-SE"@, "via"@),
        !same_ignoring_case("Min-SE"@, "from"@),
        !same_ignoring_case("Min-SE"@, "to"@),
        !same_ignoring_case("Min-SE"@, "call-id"@),
        !same_ignoring_case("Min-SE"@, "cseq"@),
        !same_ignoring_case("Min-SE"@, "contact"@),
        !same_ignoring_case("Min-SE"@, "content-type"@),
        !same_ignoring_case("Min-SE"@, "retry-after"@),
        !same_ignoring_case("Min-SE"@, "allow"@),
        same_ignoring_case("Min-SE"@, "min-se"@),
        !same_ignoring_case("Min-SE"@, "session-expires"@),
        !same_ignoring_case("Min-SE"@, "require"@),
        !same_ignoring_case("Session-Expires"@, "via"@),
        !same_ignoring_case("Session-Expires"@, "from"@),
        !same_ignoring_case("Session-Expires"@, "to"@),
        !same_ignoring_case("Session-Expires"@, "call-id"@),
        !same_ignoring_case("Session-Expires"@, "cseq"@),
        !same_ignoring_case("Session-Expires"@, "contact"@),
        !same_ignoring_case("Session-Expires"@, "content-type"@),
        !same_ignoring_case("Session-Expires"@, "retry-after"@),
        !same_ignoring_case("Session-Expires"@, "allow"@),
        !same_ignoring_case("Session-Expires"@, "min-se"@),
        same_ignoring_case("Session-Expires"@, "session-expires"@),
        !same_ignoring_case("Session-Expires"@, "require"@),
        !same_ignoring_case("Require"@, "via"@),
        !same_ignoring_case("Require"@, "from"@),
        !same_ignoring_case("Require"@, "to"@),
        !same_ignoring_case("Require"@, "call-id"@),
        !same_ignoring_case("Require"@, "cseq"@),
        !same_ignoring_case("Require"@, "contact"@),
        !same_ignoring_case("Require"@, "content-type"@),
        !same_ignoring_case("Require"@, "retry-after"@),
        !same_ignoring_case("Require"@, "allow"@),
        !same_ignoring_case("Require"@, "min-se"@),
        !same_ignoring_case("Require"@, "session-expires"@),
        same_ignoring_case("Require"@, "require"@),
        !same_ignoring_case("To"@, "via"@),
        !same_ignoring_case("To"@, "from"@),
        same_ignoring_case("To"@, "to"@),
        !same_ignoring_case("To"@, "call-id"@),
        !same_ignoring_case("To"@, "cseq"@),
        !same_ignoring_case("To"@, "contact"@),
        !same_ignoring_case("To"@, "content-type"@),
        !same_ignoring_case("To"@, "retry-after"@),
        !same_ignoring_case("To"@, "allow"@),
        !same_ignoring_case("To"@, "min-se"@),
        !same_ignoring_case("To"@, "session-expires"@),
        !same_ignoring_case("To"@, "require"@),
        !same_ignoring_case("via"@, "contact"@),
        !same_ignoring_case("via"@, "content-type"@),
        !same_ignoring_case("via"@, "retry-after"@),
        !same_ignoring_case("via"@, "allow"@),
        !same_ignoring_case("via"@, "min-se"@),
        !same_ignoring_case("via"@, "session-expires"@),
        !same_ignoring_case("via"@, "require"@),
        !same_ignoring_case("from"@, "contact"@),
        !same_ignoring_case("from"@, "content-type"@),
        !same_ignoring_case("from"@, "retry-after"@),
        !same_ignoring_case("from"@, "allow"@),
        !same_ignoring_case("from"@, "min-se"@),
        !same_ignoring_case("from"@, "session-expires"@),
        !same_ignoring_case("from"@, "require"@),
        !same_ignoring_case("to"@, "contact"@),
        !same_ignoring_case("to"@, "content-type"@),
        !same_ignoring_case("to"@, "retry-after"@),
        !same_ignoring_case("to"@, "allow"@),
        !same_ignoring_case("to"@, "min-se"@),
        !same_ignoring_case("to"@, "session-expires"@),
        !same_ignoring_case("to"@, "require"@),
        !same_ignoring_case("call-id"@, "contact"@),
        !same_ignoring_case("call-id"@, "content-type"@),
        !same_ignoring_case("call-id"@, "retry-after"@),
        !same_ignoring_case("call-id"@, "allow"@),
        !same_ignoring_case("call-id"@, "min-se"@),
        !same_ignoring_case("call-id"@, "session-expires"@),
        !same_ignoring_case("call-id"@, "require"@),
        !same_ignoring_case("cseq"@, "contact"@),
        !same_ignoring_case("cseq"@, "content-type"@),
        !same_ignoring_case("cseq"@, "retry-after"@),
        !same_ignoring_case("cseq"@, "allow"@),
        !same_ignoring_case("cseq"@, "min-se"@),
        !same_ignoring_case("cseq"@, "session-expires"@),
        !same_ignoring_case("cseq"@, "require"@),
{
    reveal_strlit("Contact");
    reveal_strlit("Content-Type");
    reveal_strlit("Retry-After");
    reveal_strlit("Allow");
    reveal_strlit("Min-SE");
    reveal_strlit("Session-Expires");
    reveal_strlit("Require");
    reveal_strlit("To");
    reveal_strlit("via");
    reveal_strlit("from");
    reveal_strlit("to");
    reveal_strlit("call-id");
    reveal_strlit("cseq");
    reveal_strlit("contact");
    reveal_strlit("content-type");
    reveal_strlit("retry-after");
    reveal_strlit("allow");
    reveal_strlit("min-se");
    reveal_strlit("session-expires");
    reveal_strlit("require");
    assert(folded("Contact"@).len() != folded("via"@).len());
    assert(folded("Contact"@).len() != folded("from"@).len());
    assert(folded("Contact"@).len() != folded("to"@).len());
    assert(folded("Contact"@)[1] != folded("call-id"@)[1]);
    assert(folded("Contact"@).len() != folded("cseq"@).len());
    assert(folded("Contact"@) =~= folded("contact"@));
    assert(folded("Contact"@).len() != folded("content-type"@).len());
    assert(folded("Contact"@).len() != folded("retry-after"@).len());
    assert(folded("Contact"@).len() != folded("allow"@).len());
    assert(folded("Contact"@).len() != folded("min-se"@).len());
    assert(folded("Contact"@).len() != folded("session-expires"@).len());
    assert(folded("Contact"@)[0] != folded("require"@)[0]);
    assert(folded("Content-Type"@).len() != folded("via"@).len());
    assert(folded("Content-Type"@).len() != folded("from"@).len());
    assert(folded("Content-Type"@).len() != folded("to"@).len());
    assert(folded("Content-Type"@).len() != folded("call-id"@).len());
    assert(folded("Content-Type"@).len() != folded("cseq"@).len());
    assert(folded("Content-Type"@).len() != folded("contact"@).len());
    assert(folded("Content-Type"@) =~= folded("content-type"@));
    assert(folded("Content-Type"@).len() != folded("retry-after"@).len());
    assert(folded("Content-Type"@).len() != folded("allow"@).len());
    assert(folded("Content-Type"@).len() != folded("min-se"@).len());
    assert(folded("Content-Type"@).len() != folded("session-expires"@).len());
    assert(folded("Content-Type"@).len() != folded("require"@).len());
    assert(folded("Retry-After"@).len() != folded("via"@).len());
    assert(folded("Retry-After"@).len() != folded("from"@).len());
    assert(folded("Retry-After"@).len() != folded("to"@).len());
    assert(folded("Retry-After"@).len() != folded("call-id"@).len());
    assert(folded("Retry-After"@).len() != folded("cseq"@).len());
    assert(folded("Retry-After"@).len() != folded("contact"@).len());
    assert(folded("Retry-After"@).len() != folded("content-type"@).len());
    assert(folded("Retry-After"@) =~= folded("retry-after"@));
    assert(folded("Retry-After"@).len() != folded("allow"@).len());
    assert(folded("Retry-After"@).len() != folded("min-se"@).len());
    assert(folded("Retry-After"@).len() != folded("session-expires"@).len());
    assert(folded("Retry-After"@).len() != folded("require"@).len());
    assert(folded("Allow"@).len() != folded("via"@).len());
    assert(folded("Allow"@).len() != folded("from"@).len());
    assert(folded("Allow"@).len() != folded("to"@).len());
    assert(folded("Allow"@).len() != folded("call-id"@).len());
    assert(folded("Allow"@).len() != folded("cseq"@).len());
    assert(folded("Allow"@).len() != folded("contact"@).len());
    assert(folded("Allow"@).len() != folded("content-type"@).len());
    assert(folded("Allow"@).len() != folded("retry-after"@).len());
    assert(folded("Allow"@) =~= folded("allow"@));
    assert(folded("Allow"@).len() != folded("min-se"@).len());
    assert(folded("Allow"@).len() != folded("session-expires"@).len());
    assert(folded("Allow"@).len() != folded("require"@).len());
    assert(folded("Min-SE"@).len() != folded("via"@).len());
    assert(folded("Min-SE"@).len() != folded("from"@).len());
    assert(folded("Min-SE"@).len() != folded("to"@).len());
    assert(folded("Min-SE"@).len() != folded("call-id"@).len());
    assert(folded("Min-SE"@).len() != folded("cseq"@).len());
    assert(folded("Min-SE"@).len() != folded("contact"@).len());
    assert(folded("Min-SE"@).len() != folded("content-type"@).len());
    assert(folded("Min-SE"@).len() != folded("retry-after"@).len());
    assert(folded("Min-SE"@).len() != folded("allow"@).len());
    assert(folded("Min-SE"@) =~= folded("min-se"@));
    assert(folded("Min-SE"@).len() != folded("session-expires"@).len());
    assert(folded("Min-SE"@).len() != folded("require"@).len());
    assert(folded("Session-Expires"@).len() != folded("via"@).len());
    assert(folded("Session-Expires"@).len() != folded("from"@).len());
    assert(folded("Session-Expires"@).len() != folded("to"@).len());
    assert(folded("Session-Expires"@).len() != folded("call-id"@).len());
    assert(folded("Session-Expires"@).len() != folded("cseq"@).len());
    assert(folded("Session-Expires"@).len() != folded("contact"@).len());
    assert(folded("Session-Expires"@).len() != folded("content-type"@).len());
    assert(folded("Session-Expires"@).len() != folded("retry-after"@).len());
    assert(folded("Session-Expires"@).len() != folded("allow"@).len());
    assert(folded("Session-Expires"@).len() != folded("min-se"@).len());
    assert(folded("Session-Expires"@) =~= folded("session-expires"@));
    assert(folded("Session-Expires"@).len() != folded("require"@).len());
    assert(folded("Require"@).len() != folded("via"@).len());
    assert(folded("Require"@).len() != folded("from"@).len());
    assert(folded("Require"@).len() != folded("to"@).len());
    assert(folded("Require"@)[0] != folded("call-id"@)[0]);
    assert(folded("Require"@).len() != folded("cseq"@).len());
    assert(folded("Require"@)[0] != folded("contact"@)[0]);
    assert(folded("Require"@).len() != folded("content-type"@).len());
    assert(folded("Require"@).len() != folded("retry-after"@).len());
    assert(folded("Require"@).len() != folded("allow"@).len());
    assert(folded("Require"@).len() != folded("min-se"@).len());
    assert(folded("Require"@).len() != folded("session-expires"@).len());
    assert(folded("Require"@) =~= folded("require"@));
    assert(folded("To"@).len() != folded("via"@).len());
    assert(folded("To"@).len() != folded("from"@).len());
    assert(folded("To"@) =~= folded("to"@));
    assert(folded("To"@).len() != folded("call-id"@).len());
    assert(folded("To"@).len() != folded("cseq"@).len());
    assert(folded("To"@).len() != folded("contact"@).len());
    assert(folded("To"@).len() != folded("content-type"@).len());
    assert(folded("To"@).len() != folded("retry-after"@).len());
    assert(folded("To"@).len() != folded("allow"@).len());
    assert(folded("To"@).len() != folded("min-se"@).len());
    assert(folded("To"@).len() != folded("session-expires"@).len());
    assert(folded("To"@).len() != folded("require"@).len());
    assert(folded("via"@).len() != folded("contact"@).len());
    assert(folded("via"@).len() != folded("content-type"@).len());
    assert(folded("via"@).len() != folded("retry-after"@).len());
    assert(folded("via"@).len() != folded("allow"@).len());
    assert(folded("via"@).len() != folded("min-se"@).len());
    assert(folded("via"@).len() != folded("session-expires"@).len());
    assert(folded("via"@).len() != folded("require"@).len());
    assert(folded("from"@).len() != folded("contact"@).len());
    assert(folded("from"@).len() != folded("content-type"@).len());
    assert(folded("from"@).len() != folded("retry-after"@).len());
    assert(folded("from"@).len() != folded("allow"@).len());
    assert(folded("from"@).len() != folded("min-se"@).len());
    assert(folded("from"@).len() != folded("session-expires"@).len());
    assert(folded("from"@).len() != folded("require"@).len());
    assert(folded("to"@).len() != folded("contact"@).len());
    assert(folded("to"@).len() != folded("content-type"@).len());
    assert(folded("to"@).len() != folded("retry-after"@).len());
    assert(folded("to"@).len() != folded("allow"@).len());
    assert(folded("to"@).len() != folded("min-se"@).len());
    assert(folded("to"@).len() != folded("session-expires"@).len());
    assert(folded("to"@).len() != folded("require"@).len());
    assert(folded("call-id"@)[1] != folded("contact"@)[1]);
    assert(folded("call-id"@).len() != folded("content-type"@).len());
    assert(folded("call-id"@).len() != folded("retry-after"@).len());
    assert(folded("call-id"@).len() != folded("allow"@).len());
    assert(folded("call-id"@).len() != folded("min-se"@).len());
    assert(folded("call-id"@).len() != folded("session-expires"@).len());
    assert(folded("call-id"@)[0] != folded("require"@)[0]);
    assert(folded("cseq"@).len() != folded("contact"@).len());
    assert(folded("cseq"@).len() != folded("content-type"@).len());
    assert(folded("cseq"@).len() != folded("retry-after"@).len());
    assert(folded("cseq"@).len() != folded("allow"@).len());
    assert(folded("cseq"@).len() != folded("min-se"@).len());
    assert(folded("cseq"@).len() != folded("session-expires"@).len());
    assert(folded("cseq"@).len() != folded("require"@).len());
}

/// Whether `resp` names the request that it answers: it has all of the request's `Via`
/// fields in order, the request's `From`, `Call-ID` and `CSeq`, and the request's `To`,
/// with the tag `tag` where that had none.
pub open spec fn answers(request: SipRequest, resp: ResponseView, tag: Seq<char>) -> bool {
    let asked = request.headers@;
    &&& values_of(resp.headers, "via"@) == values_of(asked, "via"@)
    &&& header(resp.headers, "via"@) == header(asked, "via"@)
    &&& header(resp.headers, "from"@) == header(asked, "from"@)
    &&& header(resp.headers, "call-id"@) == header(asked, "call-id"@)
    &&& header(resp.headers, "cseq"@) == header(asked, "cseq"@)
    &&& match header(asked, "to"@) {
        None => header(resp.headers, "to"@) is None,
        Some(to) => header(resp.headers, "to"@) == Some(
            if has_tag(to) {
                to
            } else {
                to + ";tag="@ + tag
            },
        ),
    }
}

/// Whether `resp` has the fields that name the request with `fields`.
pub open spec fn names(fields: Seq<Field>, resp: ResponseView) -> bool {
    &&& values_of(resp.headers, "via"@) == values_of(fields, "via"@)
    &&& header(resp.headers, "via"@) == header(fields, "via"@)
    &&& header(resp.headers, "from"@) == header(fields, "from"@)
    &&& header(resp.headers, "to"@) == header(fields, "to"@)
    &&& header(resp.headers, "call-id"@) == header(fields, "call-id"@)
    &&& header(resp.headers, "cseq"@) == header(fields, "cseq"@)
}

/// Whether `name` is the name of none of the fields that a response takes over.
pub open spec fn is_added(name: Seq<char>) -> bool {
    &&& !same_ignoring_case("via"@, name)
    &&& !same_ignoring_case("from"@, name)
    &&& !same_ignoring_case("to"@, name)
    &&& !same_ignoring_case("call-id"@, name)
    &&& !same_ignoring_case("cseq"@, name)
}

pub(crate) proof fn lemma_skeleton_is_named(request: SipRequest, status: u16, reason: Seq<char>)
    ensures
        names(request.headers@, skeleton(request.headers@, status, reason)),
{
    let fields = request.headers@;
    let resp = skeleton(fields, status, reason);
    law_response_goes_back_the_way_of_the_request(fields, status, reason);
    reveal_strlit("via");
    reveal_strlit("Via");
    assert(folded("Via"@) =~= folded("via"@));
    law_values_have_no_case(fields, "Via"@, "via"@);
    law_values_have_no_case(resp.headers, "Via"@, "via"@);
    law_response_takes_over_what_names_the_request(fields, status, reason, "via"@);
    law_response_takes_over_what_names_the_request(fields, status, reason, "from"@);
    law_response_takes_over_what_names_the_request(fields, status, reason, "to"@);
    law_response_takes_over_what_names_the_request(fields, status, reason, "call-id"@);
    law_response_takes_over_what_names_the_request(fields, status, reason, "cseq"@);
}

proof fn lemma_with_names(fields: Seq<Field>, resp: ResponseView, name: Seq<char>, value: Seq<char>)
    requires
        names(fields, resp),
        is_added(name),
    ensures
        names(fields, resp.with(name, value)),
{
    law_set_field_has_one_value(resp.headers, name, value, "via"@);
    law_header_set_is_header_read(resp.headers, name, value, "via"@);
    law_header_set_is_header_read(resp.headers, name, value, "from"@);
    law_header_set_is_header_read(resp.headers, name, value, "to"@);
    law_header_set_is_header_read(resp.headers, name, value, "call-id"@);
    law_header_set_is_header_read(resp.headers, name, value, "cseq"@);
}

/// A tag is added to a `To` field exactly where that has none, and it is the given one.
/// Nothing else changes.
pub proof fn law_only_a_missing_tag_is_added(resp: ResponseView, tag: Seq<char>, other: Seq<char>)
    ensures
        ({
            let out = tagged(resp, tag);
            &&& out.status == resp.status
            &&& out.reason == resp.reason
            &&& out.body == resp.body
            &&& header(out.headers, "to"@) == (match header(resp.headers, "to"@) {
                None => None,
                Some(to) => Some(
                    if has_tag(to) {
                        to
                    } else {
                        to + ";tag="@ + tag
                    },
                ),
            })
            &&& !same_ignoring_case(other, "to"@) ==> header(out.headers, other) == header(
                resp.headers,
                other,
            )
        }),
{
    reveal_strlit("to");
    reveal_strlit("To");
    assert(folded("To"@) =~= folded("to"@));
    if let Some(to) = header(resp.headers, "to"@) {
        law_header_set_is_header_read(resp.headers, "To"@, to + ";tag="@ + tag, "to"@);
        law_header_set_is_header_read(resp.headers, "To"@, to + ";tag="@ + tag, other);
    }
}

pub(crate) proof fn lemma_named_is_answered(request: SipRequest, resp: ResponseView, tag: Seq<char>)
    requires
        names(request.headers@, resp),
    ensures
        answers(request, tagged(resp, tag), tag),
{
    lemma_field_names();
    if let Some(to) = header(resp.headers, "to"@) {
        law_set_field_has_one_value(resp.headers, "To"@, to + ";tag="@ + tag, "via"@);
    }
    law_only_a_missing_tag_is_added(resp, tag, "via"@);
    law_only_a_missing_tag_is_added(resp, tag, "from"@);
    law_only_a_missing_tag_is_added(resp, tag, "call-id"@);
    law_only_a_missing_tag_is_added(resp, tag, "cseq"@);
}

/// A plain final response has the status and the reason phrase that it is given, names
/// its request, and has no body.
pub proof fn law_final_response_answers_its_request(
    request: SipRequest,
    status: u16,
    reason: Seq<char>,
    tag: Seq<char>,
)
    ensures
        ({
            let resp = final_response_view(request, status, reason, tag);
            &&& resp.status == status
            &&& resp.reason == reason
            &&& resp.body.len() == 0
            &&& answers(request, resp, tag)
        }),
{
    let plain = skeleton(request.headers@, status, reason);
    lemma_skeleton_is_named(request, status, reason);
    lemma_named_is_answered(request, plain, tag);
    law_only_a_missing_tag_is_added(plain, tag, "to"@);
    law_response_takes_over_what_names_the_request(request.headers@, status, reason, "to"@);
}

/// A response that lists the methods that are handled has the status and the reason
/// phrase that it is given, takes over the fields that name its request, and has no
/// body.
pub proof fn law_listing_of_methods_answers_its_request(
    request: SipRequest,
    status: u16,
    reason: Seq<char>,
)
    ensures
        ({
            let resp = with_allow_view(request, status, reason);
            &&& resp.status == status
            &&& resp.reason == reason
            &&& resp.body.len() == 0
            &&& header(resp.headers, "allow"@) == Some("INVITE, ACK, BYE, CANCEL, OPTIONS"@)
            &&& header(resp.headers, "via"@) == header(request.headers@, "via"@)
            &&& header(resp.headers, "from"@) == header(request.headers@, "from"@)
            &&& header(resp.headers, "to"@) == header(request.headers@, "to"@)
            &&& header(resp.headers, "call-id"@) == header(request.headers@, "call-id"@)
            &&& header(resp.headers, "cseq"@) == header(request.headers@, "cseq"@)
        }),
{
    lemma_field_names();
    let plain = skeleton(request.headers@, status, reason);
    lemma_skeleton_is_named(request, status, reason);
    lemma_with_names(request.headers@, plain, "Allow"@, SUPPORTED_METHODS_ALLOW@);
    law_header_set_is_header_read(
        plain.headers,
        "Allow"@,
        SUPPORTED_METHODS_ALLOW@,
        "allow"@,
    );
    law_response_takes_over_what_names_the_request(request.headers@, status, reason, "to"@);
}

/// A session description that is put into a response is its body, and says so; an empty
/// one changes nothing. The status, the reason phrase and all other fields stay.
pub proof fn law_session_description_is_the_body(
    resp: ResponseView,
    body: Seq<u8>,
    other: Seq<char>,
)
    ensures
        ({
            let out = with_sdp(resp, body);
            &&& out.status == resp.status
            &&& out.reason == resp.reason
            &&& body.len() == 0 ==> out == resp
            &&& body.len() > 0 ==> {
                &&& out.body == body
                &&& header(out.headers, "content-type"@) == Some("application/sdp"@)
            }
            &&& !same_ignoring_case("Content-Type"@, other) ==> header(out.headers, other)
                == header(resp.headers, other)
        }),
{
    lemma_field_names();
    law_header_set_is_header_read(
        resp.headers,
        "Content-Type"@,
        "application/sdp"@,
        "content-type"@,
    );
    law_header_set_is_header_read(resp.headers, "Content-Type"@, "application/sdp"@, other);
}

pub(crate) proof fn lemma_sdp_and_contact(
    request: SipRequest,
    body: Seq<u8>,
    contact: Seq<char>,
)
    ensures
        ({
            let out = with_sdp(skeleton(request.headers@, 200, "OK"@), body).with(
                "Contact"@,
                contact,
            );
            &&& names(request.headers@, out)
            &&& out.status == 200
            &&& out.reason == "OK"@
            &&& out.body == body
            &&& header(out.headers, "contact"@) == Some(contact)
            &&& header(out.headers, "content-type"@) == (if body.len() > 0 {
                Some("application/sdp"@)
            } else {
                None
            })
            &&& header(out.headers, "session-expires"@) is None
            &&& header(out.headers, "require"@) is None
            &&& header(out.headers, "min-se"@) is None
            &&& header(out.headers, "retry-after"@) is None
        }),
{
    lemma_field_names();
    let fields = request.headers@;
    let plain = skeleton(fields, 200, "OK"@);
    let mid = with_sdp(plain, body);
    lemma_skeleton_is_named(request, 200, "OK"@);
    if body.len() > 0 {
        lemma_with_names(fields, plain, "Content-Type"@, "application/sdp"@);
    }
    lemma_with_names(fields, mid, "Contact"@, contact);
    assert(body.len() == 0 ==> body =~= plain.body);
    law_header_set_is_header_read(mid.headers, "Contact"@, contact, "contact"@);
    law_header_set_is_header_read(mid.headers, "Contact"@, contact, "content-type"@);
    law_session_description_is_the_body(plain, body, "content-type"@);
    law_response_takes_over_what_names_the_request(fields, 200, "OK"@, "content-type"@);
    lemma_absent(fields, body, contact, "session-expires"@);
    lemma_absent(fields, body, contact, "require"@);
    lemma_absent(fields, body, contact, "min-se"@);
    lemma_absent(fields, body, contact, "retry-after"@);
}

pub(crate) proof fn lemma_absent(
    fields: Seq<Field>,
    body: Seq<u8>,
    contact: Seq<char>,
    name: Seq<char>,
)
    requires
        !same_ignoring_case("Contact"@, name),
        !same_ignoring_case("Content-Type"@, name),
        !same_ignoring_case("via"@, name),
        !same_ignoring_case("from"@, name),
        !same_ignoring_case("to"@, name),
        !same_ignoring_case("call-id"@, name),
        !same_ignoring_case("cseq"@, name),
    ensures
        header(
            with_sdp(skeleton(fields, 200, "OK"@), body).with("Contact"@, contact).headers,
            name,
        ) is None,
{
    let plain = skeleton(fields, 200, "OK"@);
    law_response_takes_over_what_names_the_request(fields, 200, "OK"@, name);
    law_session_description_is_the_body(plain, body, name);
    law_header_set_is_header_read(with_sdp(plain, body).headers, "Contact"@, contact, name);
}

pub(crate) proof fn lemma_field_keeps_names(
    request: SipRequest,
    resp: ResponseView,
    name: Seq<char>,
    value: Seq<char>,
)
    requires
        names(request.headers@, resp),
        name == "Session-Expires"@ || name == "Require"@ || name == "Min-SE"@ || name
            == "Retry-After"@ || name == "Contact"@,
    ensures
        names(request.headers@, resp.with(name, value)),
{
    lemma_field_names();
    lemma_with_names(request.headers@, resp, name, value);
}

/// The answer to an extension's INVITE is a 200 that names the INVITE, whose body is
/// exactly the session description that it is given, and whose `Contact` is the given
/// URI.
pub proof fn law_answer_to_an_extension_is_the_given_one(
    invite: SipRequest,
    body: Seq<u8>,
    contact_uri: Seq<char>,
    tag: Seq<char>,
)
    ensures
        ({
            let resp = answer_to_ext(invite, body, contact_uri, tag);
            &&& resp.status == 200
            &&& resp.reason == "OK"@
            &&& resp.body == body
            &&& header(resp.headers, "content-type"@) == (if body.len() > 0 {
                Some("application/sdp"@)
            } else {
                None
            })
            &&& header(resp.headers, "contact"@) == Some("<"@ + contact_uri + ">"@)
            &&& answers(invite, resp, tag)
        }),
{
    lemma_field_names();
    let contact = "<"@ + contact_uri + ">"@;
    lemma_sdp_and_contact(invite, body, contact);
    let plain = with_sdp(skeleton(invite.headers@, 200, "OK"@), body).with("Contact"@, contact);
    lemma_named_is_answered(invite, plain, tag);
    law_only_a_missing_tag_is_added(plain, tag, "contact"@);
    law_only_a_missing_tag_is_added(plain, tag, "content-type"@);
}

/// The refusal of an INVITE that comes too soon is a 503 that names the INVITE and whose
/// `Retry-After` is the given number of seconds, written in decimal.
pub proof fn law_too_soon_asks_for_the_given_wait(
    invite: SipRequest,
    retry_after_secs: u64,
    tag: Seq<char>,
)
    ensures
        ({
            let resp = too_soon(invite, retry_after_secs, tag);
            &&& resp.status == 503
            &&& resp.reason == "Service Unavailable"@
            &&& resp.body.len() == 0
            &&& header(resp.headers, "retry-after"@) == Some(decimal(retry_after_secs as nat))
            &&& answers(invite, resp, tag)
        }),
{
    lemma_field_names();
    let value = decimal(retry_after_secs as nat);
    let plain = skeleton(invite.headers@, 503, "Service Unavailable"@);
    lemma_skeleton_is_named(invite, 503, "Service Unavailable"@);
    lemma_with_names(invite.headers@, plain, "Retry-After"@, value);
    law_header_set_is_header_read(plain.headers, "Retry-After"@, value, "retry-after"@);
    let full = plain.with("Retry-After"@, value);
    lemma_named_is_answered(invite, full, tag);
    law_only_a_missing_tag_is_added(full, tag, "retry-after"@);
    law_response_takes_over_what_names_the_request(
        invite.headers@,
        503,
        "Service Unavailable"@,
        "to"@,
    );
}

/// A tag is found under any spelling of its name, whatever stands before it, and a `>`
/// at the end means that there is none: what stands inside the brackets is no tag of
/// the field.
pub proof fn law_tags_are_parameters_of_the_field(
    to: Seq<char>,
    name: Seq<char>,
    value: Seq<char>,
)
    requires
        same_ignoring_case(name, "tag"@),
        !value.contains('>'),
        !value.contains(';'),
    ensures
        has_tag(to + seq![';'] + name + seq!['='] + value),
        !has_tag(to + seq!['>']),
{
    reveal_strlit("tag");
    assert(folded("tag"@).len() == 3);
    assert(folded(name).len() == 3);
    assert(name.len() == 3);
    assert(folded("tag"@)[0] == 't' as int);
    assert(folded("tag"@)[1] == 'a' as int);
    assert(folded("tag"@)[2] == 'g' as int);
    assert(folded(name)[0] == crate::text::fold(name[0]));
    assert(folded(name)[1] == crate::text::fold(name[1]));
    assert(folded(name)[2] == crate::text::fold(name[2]));
    let param = name + seq!['='] + value;
    let more = seq![';'] + param;
    let all = to + seq![';'] + name + seq!['='] + value;
    assert(all =~= to + more);
    assert(!param.contains('>') && !param.contains(';')) by {
        if param.contains('>') {
            let i = choose|i: int| 0 <= i < param.len() && param[i] == '>';
            if i >= 4 {
                assert(value[i - 4] == '>');
            }
        }
        if param.contains(';') {
            let i = choose|i: int| 0 <= i < param.len() && param[i] == ';';
            if i >= 4 {
                assert(value[i - 4] == ';');
            }
        }
    }
    assert(!more.contains('>')) by {
        if more.contains('>') {
            let i = choose|i: int| 0 <= i < more.len() && more[i] == '>';
            if i >= 1 {
                assert(param[i - 1] == '>');
            }
        }
    }
    lemma_behind_uri_extends(to, more);
    let behind = behind_uri(to);
    lemma_split_last(behind, ';', param);
    assert(behind + more =~= behind + seq![';'] + param);
    let pieces = split(behind_uri(all), ';');
    let last = pieces.len() - 1;
    assert(pieces[last] == param);
    assert(param[3] == '=');
    lemma_position_is(param, '=', 3);
    assert(before(param, '=') =~= name);
    assert(trim(name) == name);
    assert(is_tag_param(pieces[last]));

    let closed = to + seq!['>'];
    assert(closed.last() == '>');
    assert(behind_uri(closed) =~= Seq::<char>::empty());
    let none = Seq::<char>::empty();
    lemma_position(none, ';');
    assert(split(none, ';').len() <= 1);
}

/// A `Contact` that is added to an answer leaves what names the request.
pub(crate) proof fn lemma_contact_keeps_answers(
    request: SipRequest,
    resp: ResponseView,
    tag: Seq<char>,
    value: Seq<char>,
)
    requires
        answers(request, resp, tag),
    ensures
        answers(request, resp.with("Contact"@, value), tag),
        header(resp.with("Contact"@, value).headers, "contact"@) == Some(value),
        header(resp.with("Contact"@, value).headers, "content-type"@) == header(
            resp.headers,
            "content-type"@,
        ),
{
    lemma_field_names();
    law_set_field_has_one_value(resp.headers, "Contact"@, value, "via"@);
    law_header_set_is_header_read(resp.headers, "Contact"@, value, "via"@);
    law_header_set_is_header_read(resp.headers, "Contact"@, value, "from"@);
    law_header_set_is_header_read(resp.headers, "Contact"@, value, "to"@);
    law_header_set_is_header_read(resp.headers, "Contact"@, value, "call-id"@);
    law_header_set_is_header_read(resp.headers, "Contact"@, value, "cseq"@);
    law_header_set_is_header_read(resp.headers, "Contact"@, value, "contact"@);
    law_header_set_is_header_read(resp.headers, "Contact"@, value, "content-type"@);
}

pub(crate) proof fn lemma_sdp_is_named(request: SipRequest, body: Seq<u8>)
    ensures
        ({
            let out = with_sdp(skeleton(request.headers@, 200, "OK"@), body);
            &&& names(request.headers@, out)
            &&& out.status == 200
            &&& out.reason == "OK"@
            &&& out.body == body
            &&& header(out.headers, "content-type"@) == (if body.len() > 0 {
                Some("application/sdp"@)
            } else {
                None
            })
        }),
{
    lemma_field_names();
    let fields = request.headers@;
    let plain = skeleton(fields, 200, "OK"@);
    lemma_skeleton_is_named(request, 200, "OK"@);
    if body.len() > 0 {
        lemma_with_names(fields, plain, "Content-Type"@, "application/sdp"@);
    }
    assert(body.len() == 0 ==> body =~= plain.body);
    law_session_description_is_the_body(plain, body, "content-type"@);
    law_response_takes_over_what_names_the_request(fields, 200, "OK"@, "content-type"@);
}

/// A tag is one of the parameters behind the brackets of an address: nothing that stands
/// up to the last `>` is one, and of two lists of parameters either can hold it. A
/// parameter is a tag exactly where it has a value and its name is `tag`, in any case and
/// with white space around it.
pub proof fn law_tag_is_one_of_the_parameters(
    uri: Seq<char>,
    params: Seq<char>,
    more: Seq<char>,
)
    requires
        !params.contains('>'),
        !more.contains('>'),
        !more.contains(';'),
    ensures
        has_tag(uri + seq!['>'] + params) == has_tag(params),
        !params.contains(';') ==> !has_tag(params),
        has_tag(params + seq![';'] + more) <==> has_tag(params) || more.contains('=')
            && same_ignoring_case(trim(before(more, '=')), "tag"@),
{
    let none = Seq::<char>::empty();
    lemma_no_bracket(params);
    lemma_behind_uri_extends(uri + seq!['>'], params);
    assert((uri + seq!['>']).last() == '>');
    assert(behind_uri(uri + seq!['>']) =~= none);
    assert(none + params =~= params);
    let all = params + seq![';'] + more;
    assert(!all.contains('>')) by {
        if all.contains('>') {
            let i = choose|i: int| 0 <= i < all.len() && all[i] == '>';
            if i < params.len() {
                assert(params[i] == '>');
            } else if i > params.len() {
                assert(more[i - params.len() - 1] == '>');
            }
        }
    }
    lemma_no_bracket(all);
    law_pieces_stand_between_separators(params, ';', more);
    law_pieces_stand_between_separators(more, ';', more);
    let one = split(params, ';');
    let two = split(all, ';');
    assert(split(more, ';') =~= seq![more]);
    lemma_split_has_a_piece(params, ';');
    let n = one.len() as int;
    assert(two[n] == more);
    if has_tag(params) {
        let i = choose|i: int| 1 <= i < one.len() && is_tag_param(#[trigger] one[i]);
        assert(two[i] == one[i]);
    }
    if is_tag_param(more) {
        assert(is_tag_param(two[n]));
    }
    if has_tag(all) {
        let i = choose|i: int| 1 <= i < two.len() && is_tag_param(#[trigger] two[i]);
        if i < n {
            assert(is_tag_param(one[i]));
        }
    }
}

proof fn lemma_no_bracket(s: Seq<char>)
    requires
        !s.contains('>'),
    ensures
        behind_uri(s) == s,
    decreases s.len(),
{
    if s.len() > 0 {
        let front = s.drop_last();
        assert(s.contains(s.last()));
        assert(!front.contains('>')) by {
            if front.contains('>') {
                let i = choose|i: int| 0 <= i < front.len() && front[i] == '>';
                assert(s[i] == '>');
            }
        }
        lemma_no_bracket(front);
        assert(front.push(s.last()) =~= s);
    } else {
        assert(s =~= Seq::<char>::empty());
    }
}

proof fn lemma_split_has_a_piece(s: Seq<char>, sep: char)
    ensures
        split(s, sep).len() >= 1,
{
    lemma_position(s, sep);
}

/// A tag that is picked is a number: it has a digit, and nothing else.
pub proof fn law_tag_is_made_of_digits(tag: Seq<char>, i: int)
    requires
        is_tag(tag),
    ensures
        tag.len() > 0,
        0 <= i < tag.len() ==> '0' <= tag[i] <= '9',
{
    if 0 <= i < tag.len() {
        assert(is_digit(tag[i]));
    }
}

/// A response has the fields that it takes over and those that it says itself, and no
/// others: an answer its `Contact` and the type of its body, a refusal that comes of
/// haste its `Retry-After`, a list of methods its `Allow`, and a plain one none.
pub proof fn law_response_has_no_other_fields(
    request: SipRequest,
    status: u16,
    reason: Seq<char>,
    body: Seq<u8>,
    contact_uri: Seq<char>,
    secs: u64,
    tag: Seq<char>,
    name: Seq<char>,
)
    requires
        is_added(name),
    ensures
        header(final_response_view(request, status, reason, tag).headers, name) is None,
        !same_ignoring_case("Allow"@, name) ==> header(
            with_allow_view(request, status, reason).headers,
            name,
        ) is None,
        !same_ignoring_case("Contact"@, name) && !same_ignoring_case("Content-Type"@, name)
            ==> header(answer_to_ext(request, body, contact_uri, tag).headers, name) is None,
        !same_ignoring_case("Retry-After"@, name) ==> header(
            too_soon(request, secs, tag).headers,
            name,
        ) is None,
{
    let fields = request.headers@;
    let plain = skeleton(fields, status, reason);
    law_response_takes_over_what_names_the_request(fields, status, reason, name);
    law_only_a_missing_tag_is_added(plain, tag, name);
    law_header_set_is_header_read(plain.headers, "Allow"@, SUPPORTED_METHODS_ALLOW@, name);
    let ok = skeleton(fields, 200, "OK"@);
    let contact = "<"@ + contact_uri + ">"@;
    if !same_ignoring_case("Contact"@, name) && !same_ignoring_case("Content-Type"@, name) {
        lemma_absent(fields, body, contact, name);
        law_only_a_missing_tag_is_added(with_sdp(ok, body).with("Contact"@, contact), tag, name);
    }
    let busy = skeleton(fields, 503, "Service Unavailable"@);
    let value = decimal(secs as nat);
    law_response_takes_over_what_names_the_request(fields, 503, "Service Unavailable"@, name);
    law_header_set_is_header_read(busy.headers, "Retry-After"@, value, name);
    law_only_a_missing_tag_is_added(busy.with("Retry-After"@, value), tag, name);
}

} // verus!
