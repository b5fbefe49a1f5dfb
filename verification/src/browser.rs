//! What browsers are told.

use vstd::prelude::*;

use crate::ids::WsId;

verus! {

/// A message to a browser.
#[derive(Clone, Debug, PartialEq, Eq)]
pub enum BrowserMessage {
    /// There is a call, with the offer `sdp`.
    Offer { call_id: String, sdp: String },
    /// The call that was offered is over before it was answered.
    Cancel { call_id: String },
    /// The call is over.
    Bye,
    /// What the browser asked for failed.
    Error { code: &'static str, message: String },
}

/// The contents of a [`BrowserMessage`].
pub enum MessageView {
    Offer { call_id: Seq<char>, sdp: Seq<char> },
    Cancel { call_id: Seq<char> },
    Bye,
    Error { code: Seq<char>, message: Seq<char> },
}

impl View for BrowserMessage {
    type V = MessageView;

    open spec fn view(&self) -> MessageView {
        match self {
            BrowserMessage::Offer { call_id, sdp } => MessageView::Offer {
                call_id: call_id@,
                sdp: sdp@,
            },
            BrowserMessage::Cancel { call_id } => MessageView::Cancel { call_id: call_id@ },
            BrowserMessage::Bye => MessageView::Bye,
            BrowserMessage::Error { code, message } => MessageView::Error {
                code: code@,
                message: message@,
            },
        }
    }
}

/// The contents of a message that may be missing.
pub open spec fn message_view(m: Option<BrowserMessage>) -> Option<MessageView> {
    match m {
        Some(m) => Some(m@),
        None => None,
    }
}

/// The contents of a message to the browser at some connection that may be missing.
pub open spec fn addressed_view(m: Option<(WsId, BrowserMessage)>) -> Option<(WsId, MessageView)> {
    match m {
        Some((ws, m)) => Some((ws, m@)),
        None => None,
    }
}

} // verus!
