//! What is counted for the statistics.

use vstd::prelude::*;

use crate::ngn_inbound::InviteResult;
use crate::uas::OutboundDirection;

verus! {

/// One thing that is counted.
#[derive(Clone, Copy, Debug, PartialEq, Eq, Structural)]
pub enum Count {
    /// How an INVITE ended on the carrier's side.
    Ngn(InviteResult),
    /// How an INVITE ended on the extension's side.
    Extension(InviteResult),
    /// How a call of a browser ended.
    PwaOutbound(InviteResult),
    /// An INVITE was held back.
    Blocked(OutboundDirection),
    /// The time between two INVITEs, in milliseconds.
    Interval(u64),
    /// One call more.
    CallBegun,
    /// One call less.
    CallEnded,
}

/// What the time since the last INVITE is counted as: nothing where there was none.
pub open spec fn interval_counts(interval_ms: Option<u64>) -> Seq<Count> {
    match interval_ms {
        Some(ms) => seq![Count::Interval(ms)],
        None => seq![],
    }
}

/// What a call is counted as that was answered, once the answer has gone out.
pub open spec fn answer_counts() -> Seq<Count> {
    seq![
        Count::Ngn(InviteResult::Answered),
        Count::Extension(InviteResult::Answered),
        Count::CallBegun,
    ]
}

pub(crate) fn no_counts() -> (r: Vec<Count>)
    ensures
        r@ == Seq::<Count>::empty(),
{
    Vec::new()
}

pub(crate) fn one_count(c: Count) -> (r: Vec<Count>)
    ensures
        r@ == seq![c],
{
    let mut r: Vec<Count> = Vec::new();
    r.push(c);
    assert(r@ =~= seq![c]);
    r
}

pub(crate) fn two_counts(a: Count, b: Count) -> (r: Vec<Count>)
    ensures
        r@ == seq![a, b],
{
    let mut r: Vec<Count> = one_count(a);
    r.push(b);
    assert(r@ =~= seq![a, b]);
    r
}

/// What the time since the last INVITE is counted as.
pub fn count_interval(interval_ms: Option<u64>) -> (r: Vec<Count>)
    ensures
        r@ == interval_counts(interval_ms),
{
    match interval_ms {
        Some(ms) => one_count(Count::Interval(ms)),
        None => no_counts(),
    }
}

/// What a call is counted as that was answered, once the answer has gone out.
pub fn count_answer() -> (r: Vec<Count>)
    ensures
        r@ == answer_counts(),
{
    let mut r: Vec<Count> = two_counts(
        Count::Ngn(InviteResult::Answered),
        Count::Extension(InviteResult::Answered),
    );
    r.push(Count::CallBegun);
    assert(r@ =~= answer_counts());
    r
}

/// What a call is counted as that has ended.
pub fn count_end() -> (r: Vec<Count>)
    ensures
        r@ == seq![Count::CallEnded],
{
    one_count(Count::CallEnded)
}

/// An answered call is counted once on each side and as one call more; an interval is
/// counted where there is one.
pub proof fn law_answered_call_is_counted_on_both_sides(ms: u64)
    ensures
        answer_counts().len() == 3,
        answer_counts().contains(Count::Ngn(InviteResult::Answered)),
        answer_counts().contains(Count::Extension(InviteResult::Answered)),
        answer_counts().contains(Count::CallBegun),
        interval_counts(None).len() == 0,
        interval_counts(Some(ms)) == seq![Count::Interval(ms)],
{
    assert(answer_counts()[0] == Count::Ngn(InviteResult::Answered));
    assert(answer_counts()[1] == Count::Extension(InviteResult::Answered));
    assert(answer_counts()[2] == Count::CallBegun);
}

} // verus!
