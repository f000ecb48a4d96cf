//! The node: the role-dependent message-handling state machine.
//!
//! A node's role is fixed for its lifetime by the outcome of the
//! bind-or-connect probe on the formation address: whoever bound it is the
//! broker, everyone else is a peer. Dispatch consumes at most one pending
//! formation message per step and tells the caller what to do with the
//! transport next; the node itself performs no I/O.

use vstd::prelude::*;
use vstd::string::StringExecFns;

use crate::directory::Directory;
use crate::message::{opt_view, Message, MessageView};

verus! {

/// A role violation: a message that only the opposite role may legitimately
/// emit was observed. Fatal by design — it signals a logic or trust-model
/// bug, not a transient condition.
#[derive(Clone, Copy, Debug, PartialEq, Eq)]
pub enum Violation {
    /// A node that is not the broker observed a Hail.
    HailAtPeer,
    /// A node that is not the broker observed a Pair.
    PairAtPeer,
}

/// What the caller must do with the transport after one dispatch step.
#[derive(Clone, Debug, PartialEq)]
pub enum Action {
    /// Nothing to do.
    Wait,
    /// Send this message on the formation channel.
    Broadcast(Message),
    /// Open a direct channel to `address`, send a Data message carrying
    /// `payload`, and await exactly one reply.
    OpenDirect { address: String, payload: String },
    /// A Fail addressed to this node arrived: report `explanation` to the
    /// operator and carry on.
    ReportFailure { explanation: String },
    /// A Data message appeared on the formation, where it never belongs:
    /// report a protocol error and carry on.
    ReportIllegal,
    /// A role violation: abort the process with a diagnostic.
    Abort(Violation),
}

/// The mathematical value of an [`Action`].
pub enum ActionView {
    Wait,
    Broadcast(MessageView),
    OpenDirect { address: Seq<char>, payload: Seq<char> },
    ReportFailure { explanation: Seq<char> },
    ReportIllegal,
    Abort(Violation),
}

impl View for Action {
    type V = ActionView;

    open spec fn view(&self) -> ActionView {
        match self {
            Action::Wait => ActionView::Wait,
            Action::Broadcast(m) => ActionView::Broadcast(m@),
            Action::OpenDirect { address, payload } => ActionView::OpenDirect {
                address: address@,
                payload: payload@,
            },
            Action::ReportFailure { explanation } => ActionView::ReportFailure {
                explanation: explanation@,
            },
            Action::ReportIllegal => ActionView::ReportIllegal,
            Action::Abort(v) => ActionView::Abort(*v),
        }
    }
}

/// The mathematical state of a [`Node`].
pub struct NodeView {
    pub name: Seq<char>,
    pub address: Seq<char>,
    pub broker: bool,
    pub registry: Map<Seq<char>, Seq<char>>,
}

/// How the broker resolves a pair request against its directory: a Link
/// carrying the originator's registered address when the originator is
/// registered — the destination need not be — and otherwise a Fail naming
/// the originator.
pub open spec fn spec_resolve(
    registry: Map<Seq<char>, Seq<char>>,
    originator: Seq<char>,
    destination: Seq<char>,
) -> MessageView {
    if registry.contains_key(originator) {
        MessageView::Link {
            origin_name: originator,
            destination_name: destination,
            address: registry[originator],
        }
    } else {
        MessageView::Fail {
            offender: originator,
            explanation: "Origin name not found in store"@,
        }
    }
}

/// One step of the dispatch state machine: what one (possibly absent)
/// formation message does to the node's state, and the action it demands.
pub open spec fn spec_step(n: NodeView, incoming: Option<MessageView>) -> (NodeView, ActionView) {
    match incoming {
        None => (n, ActionView::Wait),
        Some(m) => match m {
            MessageView::Hail { name, address } => if n.broker {
                (
                    NodeView { registry: n.registry.insert(name, address), ..n },
                    ActionView::Wait,
                )
            } else {
                (n, ActionView::Abort(Violation::HailAtPeer))
            },
            MessageView::Pair { originator, destination } => if n.broker {
                (n, ActionView::Broadcast(spec_resolve(n.registry, originator, destination)))
            } else {
                (n, ActionView::Abort(Violation::PairAtPeer))
            },
            MessageView::Fail { offender, explanation } => if offender == n.name {
                (n, ActionView::ReportFailure { explanation })
            } else {
                (n, ActionView::Wait)
            },
            MessageView::Link { origin_name, destination_name, address } => if origin_name
                == n.name {
                (n, ActionView::OpenDirect { address, payload: "Hello world from origin"@ })
            } else if destination_name == n.name {
                (
                    n,
                    ActionView::OpenDirect {
                        address,
                        payload: "Hello world from destination"@,
                    },
                )
            } else {
                (n, ActionView::Wait)
            },
            MessageView::Data { payload } => (n, ActionView::ReportIllegal),
        },
    }
}

/// A named node with its fixed role and, when it is the broker, the peer
/// directory.
pub struct Node {
    name: String,
    address: String,
    broker: bool,
    registry: Directory,
}

impl View for Node {
    type V = NodeView;

    closed spec fn view(&self) -> NodeView {
        NodeView {
            name: self.name@,
            address: self.address@,
            broker: self.broker,
            registry: self.registry@,
        }
    }
}

impl Node {
    /// Constructs a node. `bound` is the outcome of the bind-or-connect
    /// probe on the formation address and fixes the role for the node's
    /// lifetime. The directory starts seeded with the node's own name and
    /// address.
    pub fn new(name: String, own_address: String, bound: bool) -> (r: Node)
        ensures
            r@.name == name@,
            r@.address == own_address@,
            r@.broker == bound,
            r@.registry == Map::<Seq<char>, Seq<char>>::empty().insert(name@, own_address@),
    {
        let mut registry = Directory::new();
        registry.insert(name.clone(), own_address.clone());
        Node { name, address: own_address, broker: bound, registry }
    }

    /// Whether this node won the bind race and so acts as the broker.
    pub fn is_broker(&self) -> (r: bool)
        ensures
            r == self@.broker,
    {
        self.broker
    }

    /// The Hail this node announces itself with on the formation.
    pub fn send_hail(&self) -> (r: Message)
        ensures
            r@ == (MessageView::Hail { name: self@.name, address: self@.address }),
    {
        Message::Hail { name: self.name.clone(), address: self.address.clone() }
    }

    /// The Pair request this node broadcasts to be introduced to
    /// `destination`.
    pub fn send_pair(&self, destination: String) -> (r: Message)
        ensures
            r@ == (MessageView::Pair { originator: self@.name, destination: destination@ }),
    {
        Message::Pair { originator: self.name.clone(), destination }
    }

    /// Resolves a pair request against the directory (broker only).
    pub fn handle_pair(&self, originator: String, destination: String) -> (r: Message)
        ensures
            r@ == spec_resolve(self@.registry, originator@, destination@),
    {
        match self.registry.lookup(&originator) {
            None => Message::Fail {
                offender: originator,
                explanation: String::from_str("Origin name not found in store"),
            },
            Some(address) => {
                let resolved = address.clone();
                Message::Link {
                    origin_name: originator,
                    destination_name: destination,
                    address: resolved,
                }
            },
        }
    }

    /// Dispatches at most one pending formation message: updates the node's
    /// state as [`spec_step`] says and returns the action the caller must
    /// perform on the transport.
    pub fn check_for_message(&mut self, incoming: Option<Message>) -> (r: Action)
        ensures
            final(self)@ == spec_step(old(self)@, opt_view(incoming)).0,
            r@ == spec_step(old(self)@, opt_view(incoming)).1,
    {
        match incoming {
            None => Action::Wait,
            Some(m) => match m {
                Message::Hail { name, address } => {
                    if self.broker {
                        self.registry.insert(name, address);
                        Action::Wait
                    } else {
                        Action::Abort(Violation::HailAtPeer)
                    }
                },
                Message::Pair { originator, destination } => {
                    if self.broker {
                        Action::Broadcast(self.handle_pair(originator, destination))
                    } else {
                        Action::Abort(Violation::PairAtPeer)
                    }
                },
                Message::Fail { offender, explanation } => {
                    if offender == self.name {
                        Action::ReportFailure { explanation }
                    } else {
                        Action::Wait
                    }
                },
                Message::Link { origin_name, destination_name, address } => {
                    if origin_name == self.name {
                        Action::OpenDirect {
                            address,
                            payload: String::from_str("Hello world from origin"),
                        }
                    } else if destination_name == self.name {
                        Action::OpenDirect {
                            address,
                            payload: String::from_str("Hello world from destination"),
                        }
                    } else {
                        Action::Wait
                    }
                },
                Message::Data { payload: _ } => Action::ReportIllegal,
            },
        }
    }
}

/// Examines the single reply of a direct pairing exchange: only a Data
/// message is legal there; its payload is handed back. Anything else is a
/// protocol error and the pairing attempt is abandoned.
pub fn direct_reply_payload(reply: Message) -> (r: Option<String>)
    ensures
        match reply@ {
            MessageView::Data { payload } => r matches Some(p) && p@ == payload,
            _ => r is None,
        },
{
    match reply {
        Message::Data { payload } => Some(payload),
        _ => None,
    }
}

/// A broker that observes a Hail for `(name, a1)` afterwards resolves
/// `name` to `a1` in its directory, and a second Hail for the same name
/// with another address overwrites the first: registration is
/// last-write-wins.
pub proof fn lemma_hail_registers(n: NodeView, name: Seq<char>, a1: Seq<char>, a2: Seq<char>)
    requires
        n.broker,
    ensures
        spec_step(n, Some(MessageView::Hail { name, address: a1 })).0.registry.contains_key(name),
        spec_step(n, Some(MessageView::Hail { name, address: a1 })).0.registry[name] == a1,
        spec_step(
            spec_step(n, Some(MessageView::Hail { name, address: a1 })).0,
            Some(MessageView::Hail { name, address: a2 }),
        ).0.registry[name] == a2,
{
}

/// Pairing resolution is pure in the directory state: for one and the same
/// registry it yields a Link exactly when the originator is registered —
/// independent of whether the destination is — carrying the originator's
/// registered address, and otherwise a Fail naming the originator.
pub proof fn lemma_resolution_pure(
    registry: Map<Seq<char>, Seq<char>>,
    o: Seq<char>,
    d: Seq<char>,
)
    ensures
        registry.contains_key(o) ==> spec_resolve(registry, o, d) == (MessageView::Link {
            origin_name: o,
            destination_name: d,
            address: registry[o],
        }),
        !registry.contains_key(o) ==> spec_resolve(registry, o, d) == (MessageView::Fail {
            offender: o,
            explanation: "Origin name not found in store"@,
        }),
{
}

} // verus!
