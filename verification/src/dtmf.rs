//! Key presses that an extension sends by INFO (RFC 6086), as telephone events
//! (RFC 4733).

use vstd::prelude::*;
use vstd::utf8::encode_utf8;

use crate::ids::CallId;
use crate::registry::{OutboundCallRegistry, RegistryView};
use crate::relay::{quick, Reply, ReplyView};
use crate::sip::{header, SipRequest};
use crate::text::{
    contains_ignore_ascii_case, contains_ignoring_case, folded,
    law_contained_text_has_a_front_and_a_back, same_ignoring_case, stands_at_ignoring_case,
};
use crate::time::{millis_at, unix_millis};

verus! {

/// How the body of an INFO is to be read.
#[derive(Clone, Copy, Debug, PartialEq, Eq, Structural)]
pub enum InfoBody {
    /// As `application/dtmf-relay`.
    DtmfRelay,
    /// As `application/dtmf`.
    Dtmf,
    /// Not at all.
    Unsupported,
}

/// The value of the field `name` of a request, empty where there is none.
pub open spec fn field_or_empty(request: SipRequest, name: Seq<char>) -> Seq<char> {
    match header(request.headers@, name) {
        Some(value) => value,
        None => Seq::empty(),
    }
}

/// How the body of an INFO is to be read.
pub open spec fn info_body(request: SipRequest) -> InfoBody {
    let content_type = field_or_empty(request, "content-type"@);
    if contains_ignoring_case(content_type, "application/dtmf-relay"@) {
        InfoBody::DtmfRelay
    } else if contains_ignoring_case(content_type, "application/dtmf"@) {
        InfoBody::Dtmf
    } else {
        InfoBody::Unsupported
    }
}

/// How the body of an INFO is to be read, by its `Content-Type`.
pub fn info_body_of(request: &SipRequest) -> (r: InfoBody)
    ensures
        r == info_body(*request),
{
    let content_type: &str = match request.headers.get("content-type") {
        Some(value) => value,
        None => "",
    };
    proof {
        reveal_strlit("");
        assert(content_type@ =~= field_or_empty(*request, "content-type"@));
    }
    if contains_ignore_ascii_case(content_type, "application/dtmf-relay") {
        InfoBody::DtmfRelay
    } else if contains_ignore_ascii_case(content_type, "application/dtmf") {
        InfoBody::Dtmf
    } else {
        InfoBody::Unsupported
    }
}

/// The FNV-1a hash of `bytes`, in 32 bits.
pub open spec fn fnv1a(bytes: Seq<u8>) -> u32
    decreases bytes.len(),
{
    if bytes.len() == 0 {
        0x811c_9dc5
    } else {
        (((fnv1a(bytes.drop_last()) ^ (bytes.last() as u32)) as u64 * 0x0100_0193) % 0x1_0000_0000)
            as u32
    }
}

/// The source of the telephone events of a call: a hash of its Call-ID that is not
/// zero.
pub open spec fn event_source(call_id: Seq<char>) -> u32 {
    let hash = fnv1a(encode_utf8(call_id));
    if hash == 0 {
        0xcafe_babe
    } else {
        hash
    }
}

/// The source of the telephone events of the call `call_id`.
pub fn ssrc_of(call_id: &str) -> (r: u32)
    ensures
        r == event_source(call_id@),
        r != 0,
{
    let bytes: &[u8] = call_id.as_bytes();
    let mut hash: u32 = 0x811c_9dc5;
    let mut i: usize = 0;
    assert(bytes@.take(0) =~= Seq::<u8>::empty());
    while i < bytes.len()
        invariant
            i <= bytes@.len(),
            hash == fnv1a(bytes@.take(i as int)),
        decreases bytes.len() - i,
    {
        let mixed: u32 = hash ^ (bytes[i] as u32);
        hash = ((mixed as u64 * 0x0100_0193) % 0x1_0000_0000) as u32;
        assert(bytes@.take(i + 1).drop_last() =~= bytes@.take(i as int));
        i = i + 1;
    }
    assert(bytes@.take(i as int) =~= bytes@);
    if hash == 0 {
        0xcafe_babe
    } else {
        hash
    }
}

/// Telephone events that go to the carrier through the bridge of a call.
#[derive(Clone, Copy, Debug, PartialEq, Eq, Structural)]
pub struct DtmfInjection {
    pub bridge: CallId,
    pub event: u8,
    pub start_seq: u16,
    pub timestamp: u32,
    pub ssrc: u32,
    pub duration_ms: u32,
    pub period_ms: u32,
    pub volume: u8,
}

/// The telephone events of one key press at `millis`: a tenth of a second long,
/// in packets of a twentieth.
pub open spec fn key_press(bridge: CallId, event: u8, call_id: Seq<char>, millis: u128) -> DtmfInjection {
    let timestamp = (millis % 0x1_0000_0000) as u32;
    DtmfInjection {
        bridge,
        event,
        start_seq: (timestamp % 0x1_0000) as u16,
        timestamp,
        ssrc: event_source(call_id),
        duration_ms: 100,
        period_ms: 50,
        volume: 10,
    }
}

/// What goes to the carrier for a key press: nothing where the key has no event,
/// the call is not known or has no bridge, or nothing can keep bridges.
pub open spec fn injection(
    reg: RegistryView,
    has_call_manager: bool,
    request: SipRequest,
    event: Option<u8>,
    millis: u128,
) -> Option<DtmfInjection> {
    let id = field_or_empty(request, "call-id"@);
    match (event, reg.found_by_ext(id)) {
        (Some(event), Some(entry)) => match entry.bridge_call_id {
            Some(bridge) if has_call_manager => Some(key_press(bridge, event, id, millis)),
            _ => None,
        },
        _ => None,
    }
}

/// What came of reading the body of an INFO.
#[derive(Clone, Copy, Debug, PartialEq, Eq, Structural)]
pub enum InfoKey {
    /// It could not be read.
    Unreadable,
    /// It holds a key that has no telephone event.
    NoEvent,
    /// It holds the key with this telephone event.
    Event(u8),
}

/// The answer to an INFO: 200 where its body holds a key, 415 otherwise.
pub open spec fn info_reply(request: SipRequest, key: InfoKey) -> ReplyView {
    if info_body(request) is Unsupported || key is Unreadable {
        ReplyView::Quick { status: 415, reason: "Unsupported Media Type"@ }
    } else {
        ReplyView::Quick { status: 200, reason: "OK"@ }
    }
}

/// What goes to the carrier for an INFO.
pub open spec fn info_injection(
    reg: RegistryView,
    has_call_manager: bool,
    request: SipRequest,
    key: InfoKey,
    millis: u128,
) -> Option<DtmfInjection> {
    if info_body(request) is Unsupported {
        None
    } else {
        match key {
            InfoKey::Event(event) => injection(
                reg,
                has_call_manager,
                request,
                Some(event),
                millis,
            ),
            _ => None,
        }
    }
}

/// Takes in what came of reading the body of an INFO as [`info_body_of`] says, at
/// `millis` milliseconds since the Unix epoch. Where that says that the body is not
/// to be read, `key` is of no account.
pub fn handle_ext_info_at(
    registry: &OutboundCallRegistry,
    has_call_manager: bool,
    request: &SipRequest,
    key: InfoKey,
    millis: u128,
) -> (r: (Reply, Option<DtmfInjection>))
    ensures
        r.0@ == info_reply(*request, key),
        r.1 == info_injection(registry@, has_call_manager, *request, key, millis),
{
    let body: InfoBody = info_body_of(request);
    let event: u8 = match (body, key) {
        (InfoBody::Unsupported, _) => {
            return (quick(415, "Unsupported Media Type"), None);
        },
        (_, InfoKey::Unreadable) => {
            return (quick(415, "Unsupported Media Type"), None);
        },
        (_, InfoKey::NoEvent) => {
            return (quick(200, "OK"), None);
        },
        (_, InfoKey::Event(event)) => event,
    };
    let id: &str = match request.headers.get("call-id") {
        Some(id) => id,
        None => "",
    };
    proof {
        reveal_strlit("");
        assert(id@ =~= field_or_empty(*request, "call-id"@));
    }
    let bridge: Option<CallId> = match registry.lookup_by_ext(id) {
        Some(entry) => entry.bridge_call_id,
        None => None,
    };
    let inject: Option<DtmfInjection> = match bridge {
        Some(bridge) => if has_call_manager {
            let timestamp: u32 = (millis % 0x1_0000_0000) as u32;
            Some(
                DtmfInjection {
                    bridge,
                    event,
                    start_seq: (timestamp % 0x1_0000) as u16,
                    timestamp,
                    ssrc: ssrc_of(id),
                    duration_ms: 100,
                    period_ms: 50,
                    volume: 10,
                },
            )
        } else {
            None
        },
        None => None,
    };
    (quick(200, "OK"), inject)
}

/// Takes in what came of reading the body of an INFO, at the time on the system's
/// clock. When the clock is read is not said: see [`handle_ext_info_at`] for what each
/// reading gives.
pub fn handle_ext_info(
    registry: &OutboundCallRegistry,
    has_call_manager: bool,
    request: &SipRequest,
    key: InfoKey,
) -> (r: (Reply, Option<DtmfInjection>))
    ensures
        r.0@ == info_reply(*request, key),
        exists|at: std::time::SystemTime|
            r.1 == info_injection(
                registry@,
                has_call_manager,
                *request,
                key,
                #[trigger] millis_at(at) as u128,
            ),
{
    handle_ext_info_at(registry, has_call_manager, request, key, unix_millis())
}

/// All telephone events of a call come from one source, whenever they are sent.
pub proof fn law_events_of_a_call_have_one_source(
    bridge: CallId,
    first: u8,
    second: u8,
    call_id: Seq<char>,
    at: u128,
    later: u128,
)
    ensures
        key_press(bridge, first, call_id, at).ssrc == key_press(
            bridge,
            second,
            call_id,
            later,
        ).ssrc,
        key_press(bridge, first, call_id, at).ssrc != 0,
{
}

/// How the body of an INFO is read is told by what its `Content-Type` names, in any case
/// and with anything around it; without one it is not read at all.
pub proof fn law_info_is_read_by_its_content_type(
    request: SipRequest,
    front: Seq<char>,
    named: Seq<char>,
    back: Seq<char>,
)
    requires
        header(request.headers@, "content-type"@) == Some(front + named + back),
    ensures
        same_ignoring_case(named, "application/dtmf-relay"@) ==> info_body(request) is DtmfRelay,
        same_ignoring_case(named, "application/dtmf"@) ==> !(info_body(request) is Unsupported),
        info_body(request) is DtmfRelay <==> contains_ignoring_case(
            front + named + back,
            "application/dtmf-relay"@,
        ),
        info_body(request) is Unsupported <==> !contains_ignoring_case(
            front + named + back,
            "application/dtmf"@,
        ),
{
    if same_ignoring_case(named, "application/dtmf-relay"@) {
        law_contained_text_has_a_front_and_a_back(
            front,
            "application/dtmf-relay"@,
            back,
            named,
        );
    }
    if same_ignoring_case(named, "application/dtmf"@) {
        law_contained_text_has_a_front_and_a_back(front, "application/dtmf"@, back, named);
    }
    let all = front + named + back;
    if contains_ignoring_case(all, "application/dtmf-relay"@) {
        reveal_strlit("application/dtmf-relay");
        reveal_strlit("application/dtmf");
        let long = "application/dtmf-relay"@;
        let short = "application/dtmf"@;
        let i = choose|i: int| #[trigger] stands_at_ignoring_case(all, long, i);
        let there = all.subrange(i, i + long.len());
        assert(short =~= long.take(short.len() as int));
        assert(all.subrange(i, i + short.len()) =~= there.take(short.len() as int));
        assert forall|k: int| 0 <= k < short.len() implies #[trigger] folded(
            there.take(short.len() as int),
        )[k] == folded(short)[k] by {
            assert(folded(there)[k] == folded(long)[k]);
        }
        assert(folded(there.take(short.len() as int)) =~= folded(short));
        assert(stands_at_ignoring_case(all, short, i));
    }
}

/// An INFO without a `Content-Type` is not read.
pub proof fn law_info_without_a_type_is_not_read(request: SipRequest)
    requires
        header(request.headers@, "content-type"@) is None,
    ensures
        info_body(request) is Unsupported,
{
    reveal_strlit("application/dtmf-relay");
    reveal_strlit("application/dtmf");
    let none = Seq::<char>::empty();
    assert(field_or_empty(request, "content-type"@) =~= none);
    assert(!contains_ignoring_case(none, "application/dtmf-relay"@));
    assert(!contains_ignoring_case(none, "application/dtmf"@));
}

/// The hash of nothing is the offset basis, and each byte more is mixed in and the whole
/// multiplied by the prime, in 32 bits.
pub proof fn law_hash_takes_in_byte_by_byte(bytes: Seq<u8>, next: u8)
    ensures
        fnv1a(Seq::empty()) == 2_166_136_261,
        fnv1a(bytes.push(next)) as int == ((fnv1a(bytes) ^ (next as u32)) as int * 16_777_619)
            % 4_294_967_296,
{
    assert(bytes.push(next).drop_last() =~= bytes);
    let mixed = fnv1a(bytes) ^ (next as u32);
    assert(mixed as int * 16_777_619 <= u64::MAX) by (nonlinear_arith)
        requires
            mixed <= u32::MAX,
    ;
}

/// The source of the telephone events of a call is the hash of its Call-ID, and never
/// zero.
pub proof fn law_source_is_the_hash_of_the_call_id(call_id: Seq<char>)
    ensures
        event_source(call_id) != 0,
        fnv1a(encode_utf8(call_id)) != 0 ==> event_source(call_id) == fnv1a(
            encode_utf8(call_id),
        ),
        fnv1a(encode_utf8(call_id)) == 0 ==> event_source(call_id) == 3_405_691_582,
{
}

/// A key press goes out as its own event, for a tenth of a second in packets of a
/// twentieth, through the bridge of the call and from the source of the call. Its time
/// and its first number are those of the moment, in 32 and in 16 bits.
pub proof fn law_key_press_is_a_telephone_event(
    bridge: CallId,
    event: u8,
    call_id: Seq<char>,
    millis: u128,
)
    ensures
        ({
            let press = key_press(bridge, event, call_id, millis);
            &&& press.bridge == bridge
            &&& press.event == event
            &&& press.ssrc == event_source(call_id)
            &&& press.timestamp == millis as int % 4_294_967_296
            &&& press.start_seq == millis as int % 65_536
            &&& press.duration_ms * 10 == 1000
            &&& press.period_ms * 20 == 1000
            &&& press.volume == 10
        }),
{
}

/// An INFO is answered with 200 exactly where its body is of a kind that is read and could
/// be read, and with 415 otherwise, whatever becomes of the key.
pub proof fn law_info_is_answered(request: SipRequest, key: InfoKey)
    ensures
        match info_reply(request, key) {
            ReplyView::Quick { status, reason } => {
                &&& status == 200 <==> !(info_body(request) is Unsupported) && !(key
                    is Unreadable)
                &&& status == 415 <==> info_body(request) is Unsupported || key is Unreadable
                &&& status == 200 ==> reason == "OK"@
                &&& status == 415 ==> reason == "Unsupported Media Type"@
            },
            ReplyView::Full(_) => false,
        },
{
}

/// A key goes to the carrier exactly where it has a telephone event, the INFO is of a kind
/// that is read, and the call that the INFO names has a bridge that something keeps. It
/// goes through that bridge, as that event and from the source of that call.
pub proof fn law_key_goes_through_the_bridge_of_its_call(
    reg: RegistryView,
    has_call_manager: bool,
    request: SipRequest,
    key: InfoKey,
    millis: u128,
    id: Seq<char>,
)
    requires
        id == (match header(request.headers@, "call-id"@) {
            Some(value) => value,
            None => Seq::empty(),
        }),
    ensures
        ({
            let sent = info_injection(reg, has_call_manager, request, key, millis);
            &&& sent is Some <==> {
                &&& key is Event
                &&& !(info_body(request) is Unsupported)
                &&& has_call_manager
                &&& reg.by_ext.contains_key(id)
                &&& reg.by_ext[id].bridge_call_id is Some
            }
            &&& sent is Some ==> {
                &&& sent->0.bridge == reg.by_ext[id].bridge_call_id->0
                &&& sent->0.event == key->Event_0
                &&& sent->0.ssrc == event_source(id)
                &&& sent->0.timestamp == millis as int % 4_294_967_296
                &&& sent->0.start_seq == millis as int % 65_536
            }
        }),
{
}

} // verus!
