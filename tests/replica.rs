use paxos::{Message, MessageKind, Replica};

#[test]
fn single() {
    let mut replica = Replica::new("1".into(), 1);

    replica.propose("v1".into());

    assert_eq!(
        replica.msg_drain()[0],
        MessageKind::Broadcast(Message::Prepare { ballot: 1 })
    );

    replica.step("2".into(), Message::Promise { ballot: 1 });

    assert_eq!(
        replica.msg_drain()[0],
        MessageKind::Broadcast(Message::Propose {
            ballot: 1,
            slot: 1,
            value: "v1".into()
        })
    );

    replica.step("2".into(), Message::Accept { ballot: 1 });

    assert_eq!(replica.log_ref().len(), 1);
    assert_eq!(replica.log_ref()[&1], "v1".to_string());
}

#[test]
fn single_node_decides_and_notifies() {
    let mut replica = Replica::new("1".into(), 1);
    assert!(replica.propose("v1".into()));
    assert_eq!(
        replica.msg_drain(),
        vec![MessageKind::Broadcast(Message::Prepare { ballot: 1 })]
    );

    replica.step("1".into(), Message::Promise { ballot: 1 });
    assert_eq!(
        replica.msg_drain(),
        vec![MessageKind::Broadcast(Message::Propose {
            ballot: 1,
            slot: 1,
            value: "v1".into()
        })]
    );

    replica.step("9".into(), Message::Accept { ballot: 1 });
    assert_eq!(
        replica.msg_drain(),
        vec![MessageKind::ProposalAccepted("v1".into())]
    );
    assert_eq!(replica.log_ref().len(), 1);
    assert_eq!(replica.log_ref()[&1], "v1".to_string());
    assert!(replica.msg_drain().is_empty());
}

#[test]
fn second_propose_is_refused() {
    let mut replica = Replica::new("1".into(), 3);
    assert!(replica.propose("v1".into()));
    assert!(!replica.propose("v2".into()));
    assert_eq!(
        replica.msg_drain(),
        vec![MessageKind::Broadcast(Message::Prepare { ballot: 1 })]
    );
    assert!(!replica.propose("v3".into()));
    assert!(replica.msg_drain().is_empty());
}

#[test]
fn prepare_with_higher_ballot_is_promised() {
    let mut replica = Replica::new("1".into(), 3);
    replica.step("2".into(), Message::Prepare { ballot: 4 });
    assert_eq!(
        replica.msg_drain(),
        vec![MessageKind::Unary("2".into(), Message::Promise { ballot: 4 })]
    );
    // The acceptor does not adopt the prepared ballot.
    replica.step("3".into(), Message::Prepare { ballot: 1 });
    assert_eq!(
        replica.msg_drain(),
        vec![MessageKind::Unary("3".into(), Message::Promise { ballot: 1 })]
    );
    replica.step("3".into(), Message::Prepare { ballot: 0 });
    assert!(replica.msg_drain().is_empty());
}

#[test]
fn propose_is_accepted_and_logged() {
    let mut replica = Replica::new("1".into(), 3);
    replica.step(
        "2".into(),
        Message::Propose {
            ballot: 3,
            slot: 7,
            value: "x".into(),
        },
    );
    assert_eq!(
        replica.msg_drain(),
        vec![MessageKind::Unary("2".into(), Message::Accept { ballot: 3 })]
    );
    assert_eq!(replica.log_ref().len(), 1);
    assert_eq!(replica.log_ref()[&7], "x".to_string());

    // An equal ballot overwrites the slot.
    replica.step(
        "3".into(),
        Message::Propose {
            ballot: 3,
            slot: 7,
            value: "y".into(),
        },
    );
    assert_eq!(
        replica.msg_drain(),
        vec![MessageKind::Unary("3".into(), Message::Accept { ballot: 3 })]
    );
    assert_eq!(replica.log_ref()[&7], "y".to_string());
}

#[test]
fn stale_propose_is_ignored() {
    let mut replica = Replica::new("1".into(), 3);
    replica.step(
        "2".into(),
        Message::Propose {
            ballot: 5,
            slot: 1,
            value: "a".into(),
        },
    );
    replica.msg_drain();
    replica.step(
        "3".into(),
        Message::Propose {
            ballot: 4,
            slot: 1,
            value: "b".into(),
        },
    );
    assert!(replica.msg_drain().is_empty());
    assert_eq!(replica.log_ref().len(), 1);
    assert_eq!(replica.log_ref()[&1], "a".to_string());
}

#[test]
fn messages_for_another_phase_are_ignored() {
    let mut replica = Replica::new("1".into(), 3);
    replica.step("2".into(), Message::Promise { ballot: 0 });
    replica.step("2".into(), Message::Accept { ballot: 0 });
    assert!(replica.msg_drain().is_empty());
    assert!(replica.log_ref().is_empty());

    assert!(replica.propose("v".into()));
    replica.msg_drain();
    // In phase one an Accept changes nothing.
    replica.step("2".into(), Message::Accept { ballot: 1 });
    replica.step("3".into(), Message::Accept { ballot: 1 });
    assert!(replica.msg_drain().is_empty());
    // A Promise for a lower ballot is ignored as well.
    replica.step("2".into(), Message::Promise { ballot: 0 });
    assert!(replica.msg_drain().is_empty());
    // The matching Promise completes phase one.
    replica.step("2".into(), Message::Promise { ballot: 1 });
    assert_eq!(
        replica.msg_drain(),
        vec![MessageKind::Broadcast(Message::Propose {
            ballot: 1,
            slot: 1,
            value: "v".into()
        })]
    );
}

#[test]
fn three_node_proposer_needs_one_more_vote_each_phase() {
    let mut replica = Replica::new("0".into(), 3);
    assert!(replica.propose("v".into()));
    replica.msg_drain();
    // A Promise from itself adds nothing to its own vote.
    replica.step("0".into(), Message::Promise { ballot: 1 });
    assert!(replica.msg_drain().is_empty());
    replica.step("1".into(), Message::Promise { ballot: 1 });
    assert_eq!(replica.msg_drain().len(), 1);
    // A late Promise in phase two is ignored.
    replica.step("2".into(), Message::Promise { ballot: 1 });
    assert!(replica.msg_drain().is_empty());
    replica.step("2".into(), Message::Accept { ballot: 1 });
    assert_eq!(
        replica.msg_drain(),
        vec![MessageKind::ProposalAccepted("v".into())]
    );
    // Back to idle: a new proposal takes the next ballot.
    assert!(replica.propose("w".into()));
    assert_eq!(
        replica.msg_drain(),
        vec![MessageKind::Broadcast(Message::Prepare { ballot: 2 })]
    );
}

#[test]
fn preempted_proposer_returns_to_idle() {
    let mut replica = Replica::new("1".into(), 3);
    assert!(replica.propose("v".into()));
    replica.msg_drain();
    replica.step("2".into(), Message::Promise { ballot: 9 });
    assert!(replica.msg_drain().is_empty());
    assert!(replica.propose("w".into()));
    assert_eq!(
        replica.msg_drain(),
        vec![MessageKind::Broadcast(Message::Prepare { ballot: 2 })]
    );
}
