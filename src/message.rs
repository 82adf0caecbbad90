use vstd::prelude::*;

verus! {

/// A protocol message exchanged between replicas.
#[derive(Clone, Debug, PartialEq, Eq)]
pub enum Message {
    Prepare { ballot: usize },
    Promise { ballot: usize },
    Propose { ballot: usize, slot: usize, value: String },
    Accept { ballot: usize },
}

/// An outbound envelope produced by a replica.
#[derive(Debug, PartialEq, Eq)]
pub enum MessageKind {
    /// Deliver the message to exactly the named participant.
    Unary(String, Message),
    /// Deliver the message to every participant but the sender.
    Broadcast(Message),
    /// Not a wire message: the value the sender just drove to a decision.
    ProposalAccepted(String),
}

/// The content of a `Message`, with values as character sequences.
pub enum MessageModel {
    Prepare { ballot: usize },
    Promise { ballot: usize },
    Propose { ballot: usize, slot: usize, value: Seq<char> },
    Accept { ballot: usize },
}

/// The content of a `MessageKind`, with identifiers and values as character
/// sequences.
pub enum MessageKindModel {
    Unary(Seq<char>, MessageModel),
    Broadcast(MessageModel),
    ProposalAccepted(Seq<char>),
}

impl View for Message {
    type V = MessageModel;

    open spec fn view(&self) -> MessageModel {
        match self {
            Message::Prepare { ballot } => MessageModel::Prepare { ballot: *ballot },
            Message::Promise { ballot } => MessageModel::Promise { ballot: *ballot },
            Message::Propose { ballot, slot, value } => MessageModel::Propose {
                ballot: *ballot,
                slot: *slot,
                value: value@,
            },
            Message::Accept { ballot } => MessageModel::Accept { ballot: *ballot },
        }
    }
}

impl View for MessageKind {
    type V = MessageKindModel;

    open spec fn view(&self) -> MessageKindModel {
        match self {
            MessageKind::Unary(to, m) => MessageKindModel::Unary(to@, m@),
            MessageKind::Broadcast(m) => MessageKindModel::Broadcast(m@),
            MessageKind::ProposalAccepted(v) => MessageKindModel::ProposalAccepted(v@),
        }
    }
}

/// The views of a sequence of envelopes, in order.
pub open spec fn envelopes_view(s: Seq<MessageKind>) -> Seq<MessageKindModel> {
    s.map_values(|e: MessageKind| e@)
}

} // verus!
