//! The closed set of protocol messages exchanged between nodes.

use vstd::prelude::*;

verus! {

/// A protocol message. All fields are plain strings; addresses are opaque
/// identifiers understood by the transport.
///
/// Only the broker emits `Link` and `Fail`; only peers emit `Hail` and
/// `Pair`. `Data` travels exclusively on a direct channel between two
/// linked peers.
#[derive(Clone, Debug, PartialEq)]
pub enum Message {
    /// "I exist; register me." Peer -> formation.
    Hail { name: String, address: String },
    /// "Introduce originator to destination." Peer -> formation.
    Pair { originator: String, destination: String },
    /// "Here is how destination reaches origin." Broker -> formation.
    Link { origin_name: String, destination_name: String, address: String },
    /// An error addressed to a specific node name. Broker -> formation.
    Fail { offender: String, explanation: String },
    /// Free-form application payload exchanged over a direct channel.
    Data { payload: String },
}

/// The mathematical value of a [`Message`]: the same tagged union over
/// sequences of characters.
pub enum MessageView {
    Hail { name: Seq<char>, address: Seq<char> },
    Pair { originator: Seq<char>, destination: Seq<char> },
    Link { origin_name: Seq<char>, destination_name: Seq<char>, address: Seq<char> },
    Fail { offender: Seq<char>, explanation: Seq<char> },
    Data { payload: Seq<char> },
}

impl View for Message {
    type V = MessageView;

    open spec fn view(&self) -> MessageView {
        match self {
            Message::Hail { name, address } => MessageView::Hail {
                name: name@,
                address: address@,
            },
            Message::Pair { originator, destination } => MessageView::Pair {
                originator: originator@,
                destination: destination@,
            },
            Message::Link { origin_name, destination_name, address } => MessageView::Link {
                origin_name: origin_name@,
                destination_name: destination_name@,
                address: address@,
            },
            Message::Fail { offender, explanation } => MessageView::Fail {
                offender: offender@,
                explanation: explanation@,
            },
            Message::Data { payload } => MessageView::Data { payload: payload@ },
        }
    }
}

/// The view of a message option, for contracts over "maybe one message".
pub open spec fn opt_view(m: Option<Message>) -> Option<MessageView> {
    match m {
        Some(msg) => Some(msg@),
        None => None,
    }
}

} // verus!
