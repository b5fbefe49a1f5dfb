//! What a failed request to an extension is reported as.

use vstd::prelude::*;

use crate::text::{contains, contains_text};

verus! {

#[verifier::external_type_specification]
#[verifier::external_body]
pub struct ExAnyhowError(anyhow::Error);

/// The messages of an error and of its causes, outermost first: what
/// `anyhow::Error::chain` visits, each entry as its `Display` text. An error is
/// taken to have one such text, that does not change from one reading to the next and
/// that `Display` gives without failing.
pub uninterp spec fn messages_of(err: anyhow::Error) -> Seq<Seq<char>>;

/// Calls `anyhow::Error::chain` and hands out the `Display` text of each error
/// that it visits, beginning with `err` itself.
#[verifier::external_body]
fn chain_messages(err: &anyhow::Error) -> (r: Vec<String>)
    ensures
        r@.map_values(|m: String| m@) == messages_of(*err),
{
    err.chain().map(|e| e.to_string()).collect()
}

/// Whether one of `messages` tells of a transaction that timed out.
pub open spec fn tells_of_timeout(messages: Seq<Seq<char>>) -> bool {
    exists|i: int| 0 <= i < messages.len() && contains(#[trigger] messages[i], "transaction timeout"@)
}

/// The final response that stands for an error with `messages`.
pub open spec fn reported_as(messages: Seq<Seq<char>>, r: (u16, &'static str)) -> bool {
    if tells_of_timeout(messages) {
        r.0 == 408 && r.1@ == "Request Timeout"@
    } else {
        r.0 == 500 && r.1@ == "Server Internal Error"@
    }
}

/// The final response that stands for an error with `messages`: 408 where one of
/// them tells of a transaction that timed out, 500 otherwise.
pub fn classify_messages(messages: &Vec<String>) -> (r: (u16, &'static str))
    ensures
        reported_as(messages@.map_values(|m: String| m@), r),
{
    let ghost all = messages@.map_values(|m: String| m@);
    let mut i: usize = 0;
    while i < messages.len()
        invariant
            i <= messages.len(),
            all == messages@.map_values(|m: String| m@),
            forall|k: int| 0 <= k < i ==> !contains(#[trigger] all[k], "transaction timeout"@),
        decreases messages.len() - i,
    {
        assert(all[i as int] == messages@[i as int]@);
        if contains_text(messages[i].as_str(), "transaction timeout") {
            assert(tells_of_timeout(all));
            return (408, "Request Timeout");
        }
        i = i + 1;
    }
    (500, "Server Internal Error")
}

/// The final response that stands for a request to an extension that failed with
/// `err`. A transaction that timed out, at whatever depth `err` says so, is a
/// callee that does not answer: 408 (RFC 3261 §13.3.1.1). Anything else is 500
/// (§13.3.1.2).
pub fn classify_ext_reinvite_send_error(err: &anyhow::Error) -> (r: (u16, &'static str))
    ensures
        reported_as(messages_of(*err), r),
{
    classify_messages(&chain_messages(err))
}

/// An error tells of a timeout exactly where one of its messages does, at whatever depth;
/// a message does where the words stand in it.
pub proof fn law_timeout_is_told_at_any_depth(
    outer: Seq<Seq<char>>,
    message: Seq<char>,
    inner: Seq<Seq<char>>,
)
    ensures
        tells_of_timeout(outer + inner) <==> tells_of_timeout(outer) || tells_of_timeout(inner),
        tells_of_timeout(seq![message]) <==> contains(message, "transaction timeout"@),
        !tells_of_timeout(Seq::empty()),
{
    let all = outer + inner;
    if tells_of_timeout(outer) {
        let i = choose|i: int|
            0 <= i < outer.len() && contains(#[trigger] outer[i], "transaction timeout"@);
        assert(contains(all[i], "transaction timeout"@));
    }
    if tells_of_timeout(inner) {
        let i = choose|i: int|
            0 <= i < inner.len() && contains(#[trigger] inner[i], "transaction timeout"@);
        assert(contains(all[outer.len() + i], "transaction timeout"@));
    }
    if tells_of_timeout(all) {
        let i = choose|i: int|
            0 <= i < all.len() && contains(#[trigger] all[i], "transaction timeout"@);
        if i < outer.len() {
            assert(contains(outer[i], "transaction timeout"@));
        } else {
            assert(contains(inner[i - outer.len()], "transaction timeout"@));
        }
    }
    let one = seq![message];
    assert(one[0] == message);
    if contains(message, "transaction timeout"@) {
        assert(contains(one[0], "transaction timeout"@));
    }
}

/// An error that tells of a timeout is reported as a callee that did not answer, and any
/// other as a failure of the server.
pub proof fn law_timeout_is_reported_as_such(messages: Seq<Seq<char>>, r: (u16, &'static str))
    requires
        reported_as(messages, r),
    ensures
        r.0 == 408 <==> tells_of_timeout(messages),
        r.0 == 500 <==> !tells_of_timeout(messages),
        r.0 == 408 ==> r.1@ == "Request Timeout"@,
        r.0 == 500 ==> r.1@ == "Server Internal Error"@,
{
}

} // verus!
