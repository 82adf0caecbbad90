use vstd::prelude::*;

verus! {

/// What a quorum means: the cluster size it was created for and the set of
/// participants that have acknowledged.
pub struct QuorumModel {
    pub total_nodes: nat,
    pub acks: Set<Seq<char>>,
}

impl QuorumModel {
    /// An empty quorum over `total_nodes` participants.
    pub open spec fn empty(total_nodes: nat) -> QuorumModel {
        QuorumModel { total_nodes, acks: Set::empty() }
    }

    /// Records an acknowledgement from `id`; acknowledging twice counts once.
    pub open spec fn ack(self, id: Seq<char>) -> QuorumModel {
        QuorumModel { acks: self.acks.insert(id), ..self }
    }

    /// Strictly more than half of the participants have acknowledged.
    pub open spec fn is_majority(self) -> bool {
        self.acks.len() > self.total_nodes / 2
    }
}

/// A quorum is reached exactly when at least `total_nodes / 2 + 1`
/// participants have acknowledged; for clusters of one to five participants
/// the smallest such numbers are 1, 2, 2, 3 and 3.
pub proof fn lemma_majority_threshold(q: QuorumModel)
    ensures
        q.is_majority() <==> q.acks.len() >= q.total_nodes / 2 + 1,
        q.total_nodes == 1 ==> (q.is_majority() <==> q.acks.len() >= 1),
        q.total_nodes == 2 ==> (q.is_majority() <==> q.acks.len() >= 2),
        q.total_nodes == 3 ==> (q.is_majority() <==> q.acks.len() >= 2),
        q.total_nodes == 4 ==> (q.is_majority() <==> q.acks.len() >= 3),
        q.total_nodes == 5 ==> (q.is_majority() <==> q.acks.len() >= 3),
{
}

/// Acknowledging the same participant twice counts once: the second
/// acknowledgement changes neither the set of acknowledgements, nor its size,
/// nor whether a majority is reached.
pub proof fn lemma_ack_idempotent(q: QuorumModel, id: Seq<char>)
    ensures
        q.ack(id).ack(id) == q.ack(id),
        q.ack(id).ack(id).acks.len() == q.ack(id).acks.len(),
        q.ack(id).ack(id).is_majority() == q.ack(id).is_majority(),
        q.acks.contains(id) ==> q.ack(id) == q,
{
    assert(q.ack(id).ack(id).acks =~= q.ack(id).acks);
    if q.acks.contains(id) {
        assert(q.ack(id).acks =~= q.acks);
    }
}

/// Accumulates acknowledgements for one phase of one ballot attempt.
#[derive(Debug)]
pub struct Quorum {
    total_nodes: usize,
    acks: Vec<String>,
}

impl View for Quorum {
    type V = QuorumModel;

    closed spec fn view(&self) -> QuorumModel {
        QuorumModel { total_nodes: self.total_nodes as nat, acks: self.ids().to_set() }
    }
}

impl Quorum {
    spec fn ids(&self) -> Seq<Seq<char>> {
        self.acks@.map_values(|s: String| s@)
    }

    /// Each participant is recorded at most once.
    pub closed spec fn wf(&self) -> bool {
        self.ids().no_duplicates()
    }

    proof fn lemma_len(&self)
        requires
            self.wf(),
        ensures
            self@.acks.finite(),
            self@.acks.len() == self.acks@.len(),
    {
        broadcast use vstd::seq_lib::seq_to_set_is_finite;

        self.ids().unique_seq_to_set();
    }

    /// A quorum over `total_nodes` participants that nobody has acknowledged yet.
    pub fn new(total_nodes: usize) -> (q: Quorum)
        ensures
            q.wf(),
            q@ == QuorumModel::empty(total_nodes as nat),
    {
        let q = Quorum { total_nodes, acks: Vec::new() };
        proof {
            assert(q.ids() =~= Seq::<Seq<char>>::empty());
            assert(q@.acks =~= Set::<Seq<char>>::empty());
        }
        q
    }

    /// Records an acknowledgement from `id`; a repeated `id` changes nothing.
    pub fn ack(&mut self, id: String)
        requires
            old(self).wf(),
        ensures
            final(self).wf(),
            final(self)@ == old(self)@.ack(id@),
    {
        let mut i: usize = 0;
        while i < self.acks.len()
            invariant
                self.wf(),
                *self == *old(self),
                i <= self.acks@.len(),
                forall|j: int| 0 <= j < i ==> self.acks@[j]@ != id@,
            decreases self.acks@.len() - i,
        {
            if self.acks[i] == id {
                proof {
                    assert(self.ids()[i as int] == id@);
                    assert(self@.acks.contains(id@));
                    assert(self@.acks.insert(id@) =~= self@.acks);
                }
                return;
            }
            i = i + 1;
        }
        let ghost before = self.ids();
        self.acks.push(id);
        proof {
            assert(self.ids() =~= before.push(id@));
            assert(!before.contains(id@)) by {
                if before.contains(id@) {
                    let j = choose|j: int| 0 <= j < before.len() && before[j] == id@;
                    assert(self.acks@[j]@ == id@);
                }
            }
            before.lemma_push_to_set_commute(id@);
            assert(self.ids().no_duplicates()) by {
                assert forall|a: int, b: int|
                    0 <= a < self.ids().len() && 0 <= b < self.ids().len() && a != b
                    implies self.ids()[a] != self.ids()[b] by {
                    if a < before.len() && b < before.len() {
                    } else if a < before.len() {
                        assert(before.contains(before[a]));
                    } else {
                        assert(before.contains(before[b]));
                    }
                }
            }
        }
    }

    /// Whether strictly more than half of the participants have acknowledged.
    pub fn is_majority(&self) -> (r: bool)
        requires
            self.wf(),
        ensures
            r == self@.is_majority(),
    {
        proof {
            self.lemma_len();
        }
        self.acks.len() > self.total_nodes / 2
    }
}

} // verus!
