use std::collections::HashMap;
use vstd::prelude::*;

use crate::message::{envelopes_view, Message, MessageKind, MessageKindModel, MessageModel};
use crate::quorum::{Quorum, QuorumModel};

verus! {

broadcast use vstd::std_specs::hash::group_hash_axioms;

/// The proposer role's phase, with the quorum being counted and the value
/// under consideration.
pub enum PhaseModel {
    Idle,
    Phase1(QuorumModel, Seq<char>),
    Phase2(QuorumModel, Seq<char>),
}

/// What a replica is: its identity and cluster size, its ballot and slot
/// counters, its log, its proposer phase and its queue of outbound envelopes.
pub struct ReplicaModel {
    pub id: Seq<char>,
    pub num_nodes: nat,
    pub ballot: usize,
    pub slot: usize,
    pub log: Map<usize, Seq<char>>,
    pub phase: PhaseModel,
    pub outbound: Seq<MessageKindModel>,
}

/// The log with each value seen as a character sequence.
pub open spec fn log_view(m: Map<usize, String>) -> Map<usize, Seq<char>> {
    m.map_values(|s: String| s@)
}

impl ReplicaModel {
    /// A fresh replica: counters at zero, empty log, idle, nothing queued.
    pub open spec fn initial(id: Seq<char>, num_nodes: nat) -> ReplicaModel {
        ReplicaModel {
            id,
            num_nodes,
            ballot: 0,
            slot: 0,
            log: Map::empty(),
            phase: PhaseModel::Idle,
            outbound: Seq::empty(),
        }
    }

    /// A quorum for a new phase, already holding this replica's own vote.
    pub open spec fn self_acked_quorum(self) -> QuorumModel {
        QuorumModel::empty(self.num_nodes).ack(self.id)
    }

    /// The replica with `e` appended to its outbound queue.
    pub open spec fn send(self, e: MessageKindModel) -> ReplicaModel {
        ReplicaModel { outbound: self.outbound.push(e), ..self }
    }

    /// A successful `propose` of `value` from the idle phase: a higher ballot,
    /// phase one with a self-acked quorum, and a broadcast prepare.
    pub open spec fn after_propose(self, value: Seq<char>) -> ReplicaModel {
        let b = (self.ballot + 1) as usize;
        ReplicaModel {
            ballot: b,
            phase: PhaseModel::Phase1(self.self_acked_quorum(), value),
            outbound: self.outbound.push(
                MessageKindModel::Broadcast(MessageModel::Prepare { ballot: b }),
            ),
            ..self
        }
    }

    /// The replica after `propose(value)`, and what the call returns: only an
    /// idle replica takes a proposal.
    pub open spec fn propose_outcome(self, value: Seq<char>) -> (ReplicaModel, bool) {
        if self.phase is Idle {
            (self.after_propose(value), true)
        } else {
            (self, false)
        }
    }

    /// The replica after handling message `m` from participant `from`.
    pub open spec fn after_step(self, from: Seq<char>, m: MessageModel) -> ReplicaModel {
        match m {
            MessageModel::Prepare { ballot } => {
                if ballot > self.ballot {
                    self.send(MessageKindModel::Unary(from, MessageModel::Promise { ballot }))
                } else {
                    self
                }
            },
            MessageModel::Promise { ballot } => match self.phase {
                PhaseModel::Phase1(q, v) => {
                    if ballot > self.ballot {
                        ReplicaModel { phase: PhaseModel::Idle, ..self }
                    } else if ballot == self.ballot {
                        let acked = q.ack(from);
                        if acked.is_majority() {
                            let s = (self.slot + 1) as usize;
                            ReplicaModel {
                                slot: s,
                                log: self.log.insert(s, v),
                                phase: PhaseModel::Phase2(self.self_acked_quorum(), v),
                                outbound: self.outbound.push(
                                    MessageKindModel::Broadcast(
                                        MessageModel::Propose { ballot, slot: s, value: v },
                                    ),
                                ),
                                ..self
                            }
                        } else {
                            ReplicaModel { phase: PhaseModel::Phase1(acked, v), ..self }
                        }
                    } else {
                        self
                    }
                },
                _ => self,
            },
            MessageModel::Propose { ballot, slot, value } => {
                if ballot >= self.ballot {
                    ReplicaModel {
                        ballot,
                        log: self.log.insert(slot, value),
                        outbound: self.outbound.push(
                            MessageKindModel::Unary(from, MessageModel::Accept { ballot }),
                        ),
                        ..self
                    }
                } else {
                    self
                }
            },
            MessageModel::Accept { .. } => match self.phase {
                PhaseModel::Phase2(q, v) => {
                    let acked = q.ack(from);
                    if acked.is_majority() {
                        ReplicaModel {
                            phase: PhaseModel::Idle,
                            outbound: self.outbound.push(
                                MessageKindModel::ProposalAccepted(self.log[self.slot]),
                            ),
                            ..self
                        }
                    } else {
                        ReplicaModel { phase: PhaseModel::Phase2(acked, v), ..self }
                    }
                },
                _ => self,
            },
        }
    }
}

/// Only one proposal is in flight at a time: whatever the first `propose`
/// did, a second one is refused and leaves the replica, outbound queue
/// included, as it was.
pub proof fn lemma_single_in_flight(r: ReplicaModel, first: Seq<char>, second: Seq<char>)
    ensures
        !(r.phase is Idle) ==> r.propose_outcome(second) == (r, false),
        r.propose_outcome(first).0.propose_outcome(second) == (r.propose_outcome(first).0, false),
{
}

/// In a cluster of one, the proposer's own vote is a majority: after
/// `propose(value)`, the next matching `Promise`, from any sender, moves it to
/// phase two with a broadcast `Propose` for the next slot, and the next
/// `Accept`, from any sender, decides `value` in that slot and returns the
/// replica to idle.
pub proof fn lemma_single_node_decides(
    r: ReplicaModel,
    value: Seq<char>,
    promiser: Seq<char>,
    acceptor: Seq<char>,
    accepted_ballot: usize,
)
    requires
        r.num_nodes == 1,
        r.phase is Idle,
        r.ballot < usize::MAX,
        r.slot < usize::MAX,
    ensures
        ({
            let b = (r.ballot + 1) as usize;
            let s = (r.slot + 1) as usize;
            let proposed = r.after_propose(value);
            let promised = proposed.after_step(promiser, MessageModel::Promise { ballot: b });
            let decided = promised.after_step(
                acceptor,
                MessageModel::Accept { ballot: accepted_ballot },
            );
            &&& proposed.outbound == r.outbound.push(
                MessageKindModel::Broadcast(MessageModel::Prepare { ballot: b }),
            )
            &&& promised.phase is Phase2
            &&& promised.outbound == proposed.outbound.push(
                MessageKindModel::Broadcast(MessageModel::Propose { ballot: b, slot: s, value }),
            )
            &&& decided.phase is Idle
            &&& decided.log == r.log.insert(s, value)
            &&& decided.outbound == promised.outbound.push(
                MessageKindModel::ProposalAccepted(value),
            )
        }),
{
    let quorum = r.self_acked_quorum();
    assert(quorum.acks.len() == 1) by {
        assert(quorum.acks =~= Set::empty().insert(r.id));
    }
    let acked = quorum.ack(promiser);
    assert(acked.acks.len() >= 1) by {
        if promiser == r.id {
            assert(acked.acks =~= quorum.acks);
        } else {
            assert(acked.acks =~= Set::empty().insert(r.id).insert(promiser));
        }
    }
    let again = quorum.ack(acceptor);
    assert(again.acks.len() >= 1) by {
        if acceptor == r.id {
            assert(again.acks =~= quorum.acks);
        } else {
            assert(again.acks =~= Set::empty().insert(r.id).insert(acceptor));
        }
    }
}

/// An acceptor whose ballot is already higher than that of an incoming
/// `Propose` ignores it: its log is unchanged and it sends no `Accept`.
pub proof fn lemma_stale_propose_ignored(
    r: ReplicaModel,
    from: Seq<char>,
    ballot: usize,
    slot: usize,
    value: Seq<char>,
)
    requires
        ballot < r.ballot,
    ensures
        r.after_step(from, MessageModel::Propose { ballot, slot, value }) == r,
{
}

#[derive(Debug)]
enum State {
    Idle,
    Phase1(Quorum, String),
    Phase2(Quorum, String),
}

impl View for State {
    type V = PhaseModel;

    closed spec fn view(&self) -> PhaseModel {
        match self {
            State::Idle => PhaseModel::Idle,
            State::Phase1(q, v) => PhaseModel::Phase1(q@, v@),
            State::Phase2(q, v) => PhaseModel::Phase2(q@, v@),
        }
    }
}

/// One participant of the protocol, acting both as proposer and as acceptor.
#[derive(Debug)]
pub struct Replica {
    ballot: usize,
    slot: usize,
    log: HashMap<usize, String>,
    id: String,
    num_nodes: usize,
    state: State,
    outbound_messages: Vec<MessageKind>,
}

impl View for Replica {
    type V = ReplicaModel;

    closed spec fn view(&self) -> ReplicaModel {
        ReplicaModel {
            id: self.id@,
            num_nodes: self.num_nodes as nat,
            ballot: self.ballot,
            slot: self.slot,
            log: log_view(self.log@),
            phase: self.state@,
            outbound: envelopes_view(self.outbound_messages@),
        }
    }
}

impl Replica {
    /// The phase's quorum is sized to the cluster, and in phase two the
    /// current slot holds a value.
    pub closed spec fn wf(&self) -> bool {
        match self.state {
            State::Idle => true,
            State::Phase1(q, _) => q.wf() && q@.total_nodes == self.num_nodes,
            State::Phase2(q, _) => {
                &&& q.wf()
                &&& q@.total_nodes == self.num_nodes
                &&& self.log@.contains_key(self.slot)
            },
        }
    }

    /// A replica named `id` in a cluster of `num_nodes` participants.
    pub fn new(id: String, num_nodes: usize) -> (r: Replica)
        ensures
            r.wf(),
            r@ == ReplicaModel::initial(id@, num_nodes as nat),
    {
        let r = Replica {
            ballot: 0,
            slot: 0,
            log: HashMap::new(),
            id,
            num_nodes,
            state: State::Idle,
            outbound_messages: Vec::new(),
        };
        proof {
            assert(log_view(r.log@) =~= Map::empty());
            assert(envelopes_view(r.outbound_messages@) =~= Seq::empty());
        }
        r
    }

    fn self_acked_quorum(&self) -> (q: Quorum)
        ensures
            q.wf(),
            q@ == self@.self_acked_quorum(),
    {
        let mut q = Quorum::new(self.num_nodes);
        q.ack(self.id.clone());
        q
    }

    /// Starts a proposal of `value`. Only an idle replica accepts one; a busy
    /// replica returns `false` and changes nothing.
    pub fn propose(&mut self, value: String) -> (r: bool)
        requires
            old(self).wf(),
            old(self)@.phase is Idle ==> old(self)@.ballot < usize::MAX,
        ensures
            final(self).wf(),
            r == (old(self)@.phase is Idle),
            (final(self)@, r) == old(self)@.propose_outcome(value@),
    {
        match self.state {
            State::Idle => {},
            _ => {
                return false;
            },
        }
        self.ballot = self.ballot + 1;
        let quorum = self.self_acked_quorum();
        self.state = State::Phase1(quorum, value);
        let ghost before = self.outbound_messages@;
        self.outbound_messages.push(MessageKind::Broadcast(Message::Prepare { ballot: self.ballot }));
        proof {
            assert(envelopes_view(self.outbound_messages@) =~= envelopes_view(before).push(
                MessageKindModel::Broadcast(MessageModel::Prepare { ballot: self.ballot }),
            ));
        }
        true
    }

    /// Appends `e` to the outbound queue.
    fn send(&mut self, e: MessageKind)
        ensures
            final(self)@ == old(self)@.send(e@),
            final(self).state == old(self).state,
            final(self).num_nodes == old(self).num_nodes,
            final(self).slot == old(self).slot,
            final(self).log == old(self).log,
    {
        let ghost before = self.outbound_messages@;
        self.outbound_messages.push(e);
        proof {
            assert(envelopes_view(self.outbound_messages@) =~= envelopes_view(before).push(e@));
        }
    }

    /// Handles message `msg` from participant `from`, in the acceptor role for
    /// `Prepare` and `Propose` and in the proposer role for `Promise` and
    /// `Accept`. Messages that the ballot or the phase rule out are dropped.
    pub fn step(&mut self, from: String, msg: Message)
        requires
            old(self).wf(),
            old(self)@.phase is Phase1 ==> old(self)@.slot < usize::MAX,
        ensures
            final(self).wf(),
            final(self)@ == old(self)@.after_step(from@, msg@),
    {
        match msg {
            Message::Prepare { ballot } => {
                if ballot > self.ballot {
                    self.send(MessageKind::Unary(from, Message::Promise { ballot }));
                }
            },
            Message::Promise { ballot } => {
                let mut state = State::Idle;
                std::mem::swap(&mut self.state, &mut state);
                match state {
                    State::Phase1(mut quorum, value) => {
                        if ballot > self.ballot {
                            // Preempted by a higher ballot: the attempt is
                            // abandoned and the replica stays idle.
                        } else if ballot == self.ballot {
                            quorum.ack(from);
                            if quorum.is_majority() {
                                self.slot = self.slot + 1;
                                let next = self.self_acked_quorum();
                                self.send(
                                    MessageKind::Broadcast(
                                        Message::Propose {
                                            ballot,
                                            slot: self.slot,
                                            value: value.clone(),
                                        },
                                    ),
                                );
                                self.log.insert(self.slot, value.clone());
                                self.state = State::Phase2(next, value);
                                proof {
                                    assert(log_view(self.log@) =~= log_view(old(self).log@).insert(
                                        self.slot,
                                        value@,
                                    ));
                                }
                            } else {
                                self.state = State::Phase1(quorum, value);
                            }
                        } else {
                            self.state = State::Phase1(quorum, value);
                        }
                    },
                    other => {
                        self.state = other;
                    },
                }
            },
            Message::Propose { ballot, slot, value } => {
                if ballot >= self.ballot {
                    self.ballot = ballot;
                    let ghost before = self.log@;
                    self.log.insert(slot, value);
                    proof {
                        assert(log_view(self.log@) =~= log_view(before).insert(slot, value@));
                    }
                    self.send(MessageKind::Unary(from, Message::Accept { ballot }));
                }
            },
            Message::Accept { .. } => {
                let mut state = State::Idle;
                std::mem::swap(&mut self.state, &mut state);
                match state {
                    State::Phase2(mut quorum, value) => {
                        quorum.ack(from);
                        if quorum.is_majority() {
                            let decided = self.log.get(&self.slot).unwrap().clone();
                            self.send(MessageKind::ProposalAccepted(decided));
                        } else {
                            self.state = State::Phase2(quorum, value);
                        }
                    },
                    other => {
                        self.state = other;
                    },
                }
            },
        }
    }

    /// Hands out every queued envelope, oldest first, and empties the queue.
    pub fn msg_drain(&mut self) -> (r: Vec<MessageKind>)
        requires
            old(self).wf(),
        ensures
            final(self).wf(),
            envelopes_view(r@) == old(self)@.outbound,
            final(self)@ == (ReplicaModel { outbound: Seq::empty(), ..old(self)@ }),
    {
        let mut r = Vec::new();
        std::mem::swap(&mut self.outbound_messages, &mut r);
        proof {
            assert(envelopes_view(self.outbound_messages@) =~= Seq::empty());
        }
        r
    }

    /// The log, from slot index to value.
    pub fn log_ref(&self) -> (r: &HashMap<usize, String>)
        ensures
            log_view(r@) == self@.log,
    {
        &self.log
    }
}

} // verus!
