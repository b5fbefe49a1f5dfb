//! What call control reads in session descriptions (RFC 4566), and how the offer for the
//! carrier is made of that of an extension.

use vstd::prelude::*;
use vstd::utf8::{
    decode_utf8, decode_utf8_encode_utf8, encode_utf8, encode_utf8_decode_utf8,
    encode_utf8_valid_utf8, valid_utf8,
};

use crate::ids::{IpAddr, SocketAddr};
use crate::response::copy_bytes;
use crate::text::{
    law_pieces_stand_between_separators, same, split, split_at_char, starts_with, trim_end,
    trim_end_of,
};

verus! {

/// Calls `std::str::from_utf8`: the text that `bytes` encode where they are valid
/// UTF-8, and `None` where they are not.
#[verifier::external_body]
fn utf8_text(bytes: &[u8]) -> (r: Option<&str>)
    ensures
        r is Some <==> valid_utf8(bytes@),
        r is Some ==> r->0@ == decode_utf8(bytes@),
{
    match std::str::from_utf8(bytes) {
        Ok(text) => Some(text),
        Err(_) => None,
    }
}

/// Whether the line is a connection to nowhere.
pub open spec fn is_zero_connection(line: Seq<char>) -> bool {
    trim_end(line) == "c=IN IP4 0.0.0.0"@
}

/// Whether the line offers audio at the discard port.
pub open spec fn is_discard_audio(line: Seq<char>) -> bool {
    ||| "m=audio 9 RTP/AVP"@.is_prefix_of(trim_end(line))
    ||| "m=audio 9 UDP/TLS/RTP/SAVPF"@.is_prefix_of(trim_end(line))
}

/// Whether some of `lines` is a connection to nowhere.
pub open spec fn some_zero_connection(lines: Seq<Seq<char>>) -> bool {
    exists|i: int| 0 <= i < lines.len() && is_zero_connection(#[trigger] lines[i])
}

/// Whether some of `lines` offers audio at the discard port.
pub open spec fn some_discard_audio(lines: Seq<Seq<char>>) -> bool {
    exists|i: int| 0 <= i < lines.len() && is_discard_audio(#[trigger] lines[i])
}

/// Whether a session description still is the one that a browser answered with:
/// it connects to nowhere and offers audio at the discard port.
pub open spec fn is_placeholder(body: Seq<u8>) -> bool {
    &&& valid_utf8(body)
    &&& some_zero_connection(split(decode_utf8(body), '\n'))
    &&& some_discard_audio(split(decode_utf8(body), '\n'))
}

/// Whether the session description `body` is the placeholder that a browser
/// answers with, to which no media can be sent. Both signs are needed: a
/// connection to nowhere with a real port puts a call on hold (RFC 4566 §5.7).
pub fn is_undirected_or_webrtc_placeholder_sdp(body: &[u8]) -> (r: bool)
    ensures
        r == is_placeholder(body@),
{
    let text: &str = match utf8_text(body) {
        Some(text) => text,
        None => {
            return false;
        },
    };
    let lines: Vec<String> = split_at_char(text, '\n');
    let ghost all = split(text@, '\n');
    assert(all == lines@.map_values(|p: String| p@));
    let mut zero_connection: bool = false;
    let mut discard_audio: bool = false;
    let mut i: usize = 0;
    assert(all.take(0) =~= Seq::empty());
    while i < lines.len()
        invariant
            i <= lines.len(),
            all.len() == lines.len(),
            all == lines@.map_values(|p: String| p@),
            zero_connection == some_zero_connection(all.take(i as int)),
            discard_audio == some_discard_audio(all.take(i as int)),
        decreases lines.len() - i,
    {
        let ghost before = all.take(i as int);
        let ghost now = all.take(i + 1);
        let line: &str = trim_end_of(lines[i].as_str());
        proof {
            assert(now[i as int] == lines@[i as int]@);
            assert(forall|k: int| 0 <= k < i ==> now[k] == before[k]);
            if some_zero_connection(before) {
                let k = choose|k: int| 0 <= k < before.len() && is_zero_connection(before[k]);
                assert(is_zero_connection(now[k]));
            }
            if some_discard_audio(before) {
                let k = choose|k: int| 0 <= k < before.len() && is_discard_audio(before[k]);
                assert(is_discard_audio(now[k]));
            }
            if some_zero_connection(now) && !is_zero_connection(now[i as int]) {
                let k = choose|k: int| 0 <= k < now.len() && is_zero_connection(now[k]);
                assert(is_zero_connection(before[k]));
            }
            if some_discard_audio(now) && !is_discard_audio(now[i as int]) {
                let k = choose|k: int| 0 <= k < now.len() && is_discard_audio(now[k]);
                assert(is_discard_audio(before[k]));
            }
        }
        if same(line, "c=IN IP4 0.0.0.0") {
            zero_connection = true;
        }
        if starts_with(line, "m=audio 9 RTP/AVP") || starts_with(
            line,
            "m=audio 9 UDP/TLS/RTP/SAVPF",
        ) {
            discard_audio = true;
        }
        i = i + 1;
    }
    assert(all.take(i as int) =~= all);
    zero_connection && discard_audio
}

/// How the session description of an extension is made fit for the carrier where
/// there is no bridge.
#[derive(Clone, Copy, Debug, PartialEq, Eq, Structural)]
pub enum ForceRewrite {
    /// There is none.
    NoBody,
    /// It cannot be read, and stays as it is.
    AsIs,
    /// Make it point at this address; where that fails, it stays as it is.
    Rewrite { addr: SocketAddr },
}

/// How the session description `ext_offer` of an extension, whose first audio is at
/// `audio_port`, is made fit for the carrier where there is no bridge.
pub open spec fn forced(
    ext_offer: Seq<u8>,
    audio_port: Option<Option<u16>>,
    ngn_local_ip: IpAddr,
) -> ForceRewrite {
    if ext_offer.len() == 0 {
        ForceRewrite::NoBody
    } else {
        match audio_port {
            None => ForceRewrite::AsIs,
            Some(Some(port)) => ForceRewrite::Rewrite {
                addr: SocketAddr { ip: ngn_local_ip, port },
            },
            Some(None) => ForceRewrite::Rewrite { addr: SocketAddr { ip: ngn_local_ip, port: 0 } },
        }
    }
}

/// How the session description `ext_offer` of an extension is made fit for the
/// carrier where there is no bridge: it is to point at `ngn_local_ip`, the address
/// towards the carrier. `audio_port` is the port of the first audio in it: `None` where
/// `ext_offer` cannot be read, `Some(None)` where it offers no audio. The port is kept.
pub fn force_rewrite_sdp_for_ngn(
    ext_offer: &[u8],
    audio_port: Option<Option<u16>>,
    ngn_local_ip: IpAddr,
) -> (r: ForceRewrite)
    ensures
        r == forced(ext_offer@, audio_port, ngn_local_ip),
{
    if ext_offer.len() == 0 {
        return ForceRewrite::NoBody;
    }
    match audio_port {
        None => ForceRewrite::AsIs,
        Some(Some(port)) => ForceRewrite::Rewrite { addr: SocketAddr { ip: ngn_local_ip, port } },
        Some(None) => ForceRewrite::Rewrite { addr: SocketAddr { ip: ngn_local_ip, port: 0 } },
    }
}

/// The contents of bytes that may be missing.
pub open spec fn bytes(sdp: Option<Vec<u8>>) -> Option<Seq<u8>> {
    match sdp {
        Some(sdp) => Some(sdp@),
        None => None,
    }
}

/// What is made fit for the carrier of `ext_offer` where there is no bridge, and
/// rewriting it gave `rewritten`.
pub open spec fn without_bridge(ext_offer: Seq<u8>, rewritten: Option<Seq<u8>>) -> Option<Seq<u8>> {
    if ext_offer.len() == 0 {
        None
    } else {
        match rewritten {
            Some(sdp) => Some(sdp),
            None => Some(ext_offer),
        }
    }
}

/// What is made fit for the carrier of `ext_offer`, once it is known what came of
/// rewriting it: the rewritten one where there is one, or else `ext_offer` itself;
/// nothing where `ext_offer` is empty.
pub fn force_rewritten(ext_offer: &[u8], rewritten: Option<Vec<u8>>) -> (r: Option<Vec<u8>>)
    ensures
        bytes(r) == without_bridge(ext_offer@, bytes(rewritten)),
{
    if ext_offer.len() == 0 {
        return None;
    }
    match rewritten {
        Some(sdp) => Some(sdp),
        None => Some(copy_bytes(ext_offer)),
    }
}

/// How far the offer for the carrier is.
#[derive(Debug)]
pub enum OfferStage {
    /// Nothing was done. `prepared` is what was prepared for a bridge, where there is
    /// one.
    New { prepared: Option<Vec<u8>> },
    Reading,
    Rewriting,
    Restricting,
    Finished,
}

/// The contents of an [`OfferStage`].
pub enum OfferStageView {
    New { prepared: Option<Seq<u8>> },
    Reading,
    Rewriting,
    Restricting,
    Finished,
}

impl View for OfferStage {
    type V = OfferStageView;

    open spec fn view(&self) -> OfferStageView {
        match self {
            OfferStage::New { prepared } => OfferStageView::New { prepared: bytes(*prepared) },
            OfferStage::Reading => OfferStageView::Reading,
            OfferStage::Rewriting => OfferStageView::Rewriting,
            OfferStage::Restricting => OfferStageView::Restricting,
            OfferStage::Finished => OfferStageView::Finished,
        }
    }
}

/// What can happen while the offer for the carrier is made.
#[derive(Debug)]
pub enum OfferEvent {
    /// The offer is begun.
    Begin,
    /// The extension's offer was read: `port` is the port of the first audio in it,
    /// `Some(None)` where it offers none. It is `None` where it could not be read.
    PortRead { port: Option<Option<u16>> },
    /// The extension's offer was rewritten, or could not be.
    Rewritten { rewritten: Option<Vec<u8>> },
    /// The session description was restricted.
    Restricted { sdp: Vec<u8> },
}

/// The contents of an [`OfferEvent`].
pub enum OfferEventView {
    Begin,
    PortRead { port: Option<Option<u16>> },
    Rewritten { rewritten: Option<Seq<u8>> },
    Restricted { sdp: Seq<u8> },
}

impl View for OfferEvent {
    type V = OfferEventView;

    open spec fn view(&self) -> OfferEventView {
        match self {
            OfferEvent::Begin => OfferEventView::Begin,
            OfferEvent::PortRead { port } => OfferEventView::PortRead { port: *port },
            OfferEvent::Rewritten { rewritten } => OfferEventView::Rewritten {
                rewritten: bytes(*rewritten),
            },
            OfferEvent::Restricted { sdp } => OfferEventView::Restricted { sdp: sdp@ },
        }
    }
}

/// What a driver does for the offer for the carrier.
#[derive(Debug)]
pub enum OfferAction {
    /// The event has no place at this stage: do nothing.
    Ignore,
    /// Find the port of the first audio in `sdp`.
    ReadPort { sdp: Vec<u8> },
    /// Make `sdp` point at `addr`.
    Rewrite { sdp: Vec<u8>, addr: SocketAddr },
    /// Restrict this to the carrier's codec and telephone events.
    Restrict { sdp: Vec<u8> },
    /// Send this to the carrier; no session description at all where it is `None`.
    Send { offer: Option<Vec<u8>> },
}

/// The contents of an [`OfferAction`].
pub enum OfferActionView {
    Ignore,
    ReadPort { sdp: Seq<u8> },
    Rewrite { sdp: Seq<u8>, addr: SocketAddr },
    Restrict { sdp: Seq<u8> },
    Send { offer: Option<Seq<u8>> },
}

impl View for OfferAction {
    type V = OfferActionView;

    open spec fn view(&self) -> OfferActionView {
        match self {
            OfferAction::Ignore => OfferActionView::Ignore,
            OfferAction::ReadPort { sdp } => OfferActionView::ReadPort { sdp: sdp@ },
            OfferAction::Rewrite { sdp, addr } => OfferActionView::Rewrite {
                sdp: sdp@,
                addr: *addr,
            },
            OfferAction::Restrict { sdp } => OfferActionView::Restrict { sdp: sdp@ },
            OfferAction::Send { offer } => OfferActionView::Send { offer: bytes(*offer) },
        }
    }
}

/// The offer for the carrier, while it is made of an extension's. [`OfferEvent::Begin`]
/// is its first event.
#[derive(Debug)]
pub struct CarrierOffer {
    /// The address towards the carrier.
    pub ngn_local_ip: IpAddr,
    /// The extension's offer.
    pub ext_offer: Vec<u8>,
    pub stage: OfferStage,
}

/// The contents of a [`CarrierOffer`].
#[verifier::ext_equal]
pub struct CarrierOfferView {
    pub ngn_local_ip: IpAddr,
    pub ext_offer: Seq<u8>,
    pub stage: OfferStageView,
}

impl View for CarrierOffer {
    type V = CarrierOfferView;

    open spec fn view(&self) -> CarrierOfferView {
        CarrierOfferView {
            ngn_local_ip: self.ngn_local_ip,
            ext_offer: self.ext_offer@,
            stage: self.stage@,
        }
    }
}

/// The stage that an event leads to, and what is to be done.
pub open spec fn offer_step(o: CarrierOfferView, event: OfferEventView) -> (
    OfferStageView,
    OfferActionView,
) {
    match (o.stage, event) {
        (OfferStageView::New { prepared: Some(sdp) }, OfferEventView::Begin) => (
            OfferStageView::Restricting,
            OfferActionView::Restrict { sdp },
        ),
        (OfferStageView::New { prepared: None }, OfferEventView::Begin) => if o.ext_offer.len()
            == 0 {
            (OfferStageView::Finished, OfferActionView::Send { offer: None })
        } else {
            (OfferStageView::Reading, OfferActionView::ReadPort { sdp: o.ext_offer })
        },
        (OfferStageView::Reading, OfferEventView::PortRead { port }) => match forced(
            o.ext_offer,
            port,
            o.ngn_local_ip,
        ) {
            ForceRewrite::NoBody => (
                OfferStageView::Finished,
                OfferActionView::Send { offer: None },
            ),
            ForceRewrite::AsIs => (
                OfferStageView::Restricting,
                OfferActionView::Restrict { sdp: o.ext_offer },
            ),
            ForceRewrite::Rewrite { addr } => (
                OfferStageView::Rewriting,
                OfferActionView::Rewrite { sdp: o.ext_offer, addr },
            ),
        },
        (OfferStageView::Rewriting, OfferEventView::Rewritten { rewritten }) => match without_bridge(
            o.ext_offer,
            rewritten,
        ) {
            Some(sdp) => (OfferStageView::Restricting, OfferActionView::Restrict { sdp }),
            None => (OfferStageView::Finished, OfferActionView::Send { offer: None }),
        },
        (OfferStageView::Restricting, OfferEventView::Restricted { sdp }) => (
            OfferStageView::Finished,
            OfferActionView::Send { offer: Some(sdp) },
        ),
        _ => (o.stage, OfferActionView::Ignore),
    }
}

impl CarrierOffer {
    /// The offer for the carrier, to be made of the extension's `ext_offer`, or of
    /// `prepared`, which points at the call's bridge, where there is one.
    /// `ngn_local_ip` is the address towards the carrier.
    pub fn new(prepared: Option<Vec<u8>>, ext_offer: &[u8], ngn_local_ip: IpAddr) -> (r: Self)
        ensures
            r@ == (CarrierOfferView {
                ngn_local_ip,
                ext_offer: ext_offer@,
                stage: OfferStageView::New { prepared: bytes(prepared) },
            }),
    {
        CarrierOffer {
            ngn_local_ip,
            ext_offer: copy_bytes(ext_offer),
            stage: OfferStage::New { prepared },
        }
    }

    /// Takes an event in and says what is to be done.
    pub fn step(&mut self, event: OfferEvent) -> (r: OfferAction)
        ensures
            final(self)@ == (CarrierOfferView {
                stage: offer_step(old(self)@, event@).0,
                ..old(self)@
            }),
            r@ == offer_step(old(self)@, event@).1,
    {
        let mut stage: OfferStage = OfferStage::Finished;
        std::mem::swap(&mut stage, &mut self.stage);
        match (stage, event) {
            (OfferStage::New { prepared }, OfferEvent::Begin) => match prepared {
                Some(sdp) => {
                    self.stage = OfferStage::Restricting;
                    OfferAction::Restrict { sdp }
                },
                None => if self.ext_offer.len() == 0 {
                    OfferAction::Send { offer: None }
                } else {
                    self.stage = OfferStage::Reading;
                    OfferAction::ReadPort { sdp: copy_bytes(self.ext_offer.as_slice()) }
                },
            },
            (OfferStage::Reading, OfferEvent::PortRead { port }) => {
                match force_rewrite_sdp_for_ngn(
                    self.ext_offer.as_slice(),
                    port,
                    self.ngn_local_ip,
                ) {
                    ForceRewrite::NoBody => OfferAction::Send { offer: None },
                    ForceRewrite::AsIs => {
                        self.stage = OfferStage::Restricting;
                        OfferAction::Restrict { sdp: copy_bytes(self.ext_offer.as_slice()) }
                    },
                    ForceRewrite::Rewrite { addr } => {
                        self.stage = OfferStage::Rewriting;
                        OfferAction::Rewrite { sdp: copy_bytes(self.ext_offer.as_slice()), addr }
                    },
                }
            },
            (OfferStage::Rewriting, OfferEvent::Rewritten { rewritten }) => {
                match force_rewritten(self.ext_offer.as_slice(), rewritten) {
                    Some(sdp) => {
                        self.stage = OfferStage::Restricting;
                        OfferAction::Restrict { sdp }
                    },
                    None => OfferAction::Send { offer: None },
                }
            },
            (OfferStage::Restricting, OfferEvent::Restricted { sdp }) => OfferAction::Send {
                offer: Some(sdp),
            },
            (stage, _) => {
                self.stage = stage;
                OfferAction::Ignore
            },
        }
    }
}

/// What the carrier gets of an extension's session description was restricted last. It
/// was made of what was prepared for the bridge where there is one, or else of the
/// extension's own, which was to be made to point at the address towards the carrier
/// with its port kept, and stays as it is where it could not be read or rewritten.
/// Where there is neither, none is sent.
pub proof fn law_carrier_gets_restricted_offers_alone(
    o: CarrierOfferView,
    port: Option<Option<u16>>,
    rewritten: Option<Seq<u8>>,
    restricted: Seq<u8>,
)
    requires
        o.stage is New,
    ensures
        ({
            let prepared = o.stage->prepared;
            let (s0, a0) = offer_step(o, OfferEventView::Begin);
            let o0 = CarrierOfferView { stage: s0, ..o };
            let (s1, a1) = if a0 is ReadPort {
                offer_step(o0, OfferEventView::PortRead { port })
            } else {
                (s0, a0)
            };
            let o1 = CarrierOfferView { stage: s1, ..o };
            let (s2, a2) = if a1 is Rewrite {
                offer_step(o1, OfferEventView::Rewritten { rewritten })
            } else {
                (s1, a1)
            };
            let o2 = CarrierOfferView { stage: s2, ..o };
            let (s3, a3) = offer_step(o2, OfferEventView::Restricted { sdp: restricted });
            let own = prepared is None && o.ext_offer.len() > 0;
            &&& own <==> a0 == (OfferActionView::ReadPort { sdp: o.ext_offer })
            &&& own && port is Some <==> a1 is Rewrite
            &&& a1 matches OfferActionView::Rewrite { sdp, addr } ==> {
                &&& sdp == o.ext_offer
                &&& addr.ip == o.ngn_local_ip
                &&& addr.port == (match port {
                    Some(Some(port)) => port,
                    _ => 0,
                })
            }
            &&& if prepared is None && o.ext_offer.len() == 0 {
                a2 == (OfferActionView::Send { offer: None }) && s2 is Finished
            } else {
                &&& a2 == (OfferActionView::Restrict {
                    sdp: match prepared {
                        Some(sdp) => sdp,
                        None => match rewritten {
                            Some(sdp) if port is Some => sdp,
                            _ => o.ext_offer,
                        },
                    },
                })
                &&& a3 == (OfferActionView::Send { offer: Some(restricted) })
                &&& s3 is Finished
            }
        }),
{
}

/// No offer goes to the carrier that did not come back from being restricted, at
/// whatever stage.
pub proof fn law_only_what_was_restricted_is_sent(
    o: CarrierOfferView,
    event: OfferEventView,
    sdp: Seq<u8>,
)
    requires
        offer_step(o, event).1 == (OfferActionView::Send { offer: Some(sdp) }),
    ensures
        event == (OfferEventView::Restricted { sdp }),
{
}

/// A session description is a placeholder exactly where it is text, some line of it
/// connects to nowhere and some line of it, the same or another, offers audio at the
/// discard port. A line does so whatever white space ends it.
pub proof fn law_placeholder_has_both_signs(text: Seq<char>, first: Seq<char>, rest: Seq<char>)
    requires
        !first.contains('\n'),
    ensures
        is_placeholder(encode_utf8(text)) <==> some_zero_connection(split(text, '\n'))
            && some_discard_audio(split(text, '\n')),
        some_zero_connection(split(first + seq!['\n'] + rest, '\n')) <==> {
            ||| trim_end(first) == "c=IN IP4 0.0.0.0"@
            ||| some_zero_connection(split(rest, '\n'))
        },
        some_discard_audio(split(first + seq!['\n'] + rest, '\n')) <==> {
            ||| "m=audio 9 RTP/AVP"@.is_prefix_of(trim_end(first))
            ||| "m=audio 9 UDP/TLS/RTP/SAVPF"@.is_prefix_of(trim_end(first))
            ||| some_discard_audio(split(rest, '\n'))
        },
        some_zero_connection(split(first, '\n')) <==> trim_end(first) == "c=IN IP4 0.0.0.0"@,
        some_discard_audio(split(first, '\n')) <==> {
            ||| "m=audio 9 RTP/AVP"@.is_prefix_of(trim_end(first))
            ||| "m=audio 9 UDP/TLS/RTP/SAVPF"@.is_prefix_of(trim_end(first))
        },
{
    encode_utf8_valid_utf8(text);
    encode_utf8_decode_utf8(text);
    law_pieces_stand_between_separators(first, '\n', rest);
    let one = split(first, '\n');
    let two = split(rest, '\n');
    let all = split(first + seq!['\n'] + rest, '\n');
    assert(one[0] == first);
    assert(all[0] == first);
    assert(is_zero_connection(one[0]) == (trim_end(first) == "c=IN IP4 0.0.0.0"@));
    if some_zero_connection(two) {
        let i = choose|i: int| 0 <= i < two.len() && is_zero_connection(#[trigger] two[i]);
        assert(is_zero_connection(all[i + 1]));
    }
    if some_zero_connection(all) {
        let i = choose|i: int| 0 <= i < all.len() && is_zero_connection(#[trigger] all[i]);
        if i > 0 {
            assert(is_zero_connection(two[i - 1]));
        }
    }
    if some_discard_audio(two) {
        let i = choose|i: int| 0 <= i < two.len() && is_discard_audio(#[trigger] two[i]);
        assert(is_discard_audio(all[i + 1]));
    }
    if some_discard_audio(all) {
        let i = choose|i: int| 0 <= i < all.len() && is_discard_audio(#[trigger] all[i]);
        if i > 0 {
            assert(is_discard_audio(two[i - 1]));
        }
    }
}

/// What is no text is no placeholder.
pub proof fn law_placeholder_is_text(body: Seq<u8>)
    ensures
        is_placeholder(body) ==> valid_utf8(body) && body == encode_utf8(decode_utf8(body)),
{
    if is_placeholder(body) {
        decode_utf8_encode_utf8(body);
    }
}

/// Without a bridge an extension's session description is made to point at the address
/// towards the carrier, with the port of its audio kept and zero where it offers none. An
/// empty one is not sent; one that cannot be read, or cannot be rewritten, goes as it is.
pub proof fn law_offer_without_a_bridge_keeps_its_port(
    ext_offer: Seq<u8>,
    audio_port: Option<Option<u16>>,
    ngn_local_ip: IpAddr,
    rewritten: Option<Seq<u8>>,
)
    ensures
        match forced(ext_offer, audio_port, ngn_local_ip) {
            ForceRewrite::NoBody => ext_offer.len() == 0,
            ForceRewrite::AsIs => ext_offer.len() > 0 && audio_port is None,
            ForceRewrite::Rewrite { addr } => {
                &&& ext_offer.len() > 0
                &&& audio_port is Some
                &&& addr.ip == ngn_local_ip
                &&& audio_port->0 is Some ==> addr.port == audio_port->0->0
                &&& audio_port->0 is None ==> addr.port == 0
            },
        },
        without_bridge(ext_offer, rewritten) is None <==> ext_offer.len() == 0,
        ext_offer.len() > 0 && rewritten is Some ==> without_bridge(ext_offer, rewritten)
            == rewritten,
        ext_offer.len() > 0 && rewritten is None ==> without_bridge(ext_offer, rewritten) == Some(
            ext_offer,
        ),
{
}

/// An offer takes in what it asked for, and nothing else.
pub proof fn law_offer_takes_in_what_it_asked_for(o: CarrierOfferView, event: OfferEventView)
    ensures
        offer_step(o, event).1 is Ignore <==> !(match event {
            OfferEventView::Begin => o.stage is New,
            OfferEventView::PortRead { .. } => o.stage is Reading,
            OfferEventView::Rewritten { .. } => o.stage is Rewriting,
            OfferEventView::Restricted { .. } => o.stage is Restricting,
        }),
        offer_step(o, event).1 is Ignore ==> offer_step(o, event).0 == o.stage,
{
}

} // verus!
