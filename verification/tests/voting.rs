use voting_wallet::voting::{Config, DispatchError, Error, Event, Origin, Pallet};

fn test_config() -> Config {
    Config { proposal_expiration: 10, max_length: 100 }
}

fn new_pallet() -> Pallet {
    Pallet::new(test_config())
}

#[test]
fn test_proposal_creation() {
    let mut voting = new_pallet();
    let title = b"Test Proposal".to_vec();
    let desc = b"Description".to_vec();
    assert_eq!(voting.create_proposal(Origin::Signed(1), title.clone(), desc.clone(), 0), Ok(()));
    let (stored_title, stored_desc, creator, _expiry, for_votes, against_votes, outcome) =
        voting.proposals(0).unwrap();
    assert_eq!(stored_title, title);
    assert_eq!(stored_desc, desc);
    assert_eq!(creator, 1);
    assert_eq!(for_votes, 0);
    assert_eq!(against_votes, 0);
    assert_eq!(outcome, None);
    assert_eq!(voting.next_proposal_id(), 1);
}

#[test]
fn test_voting_process() {
    let mut voting = new_pallet();
    assert_eq!(voting.create_proposal(Origin::Signed(1), b"Test".to_vec(), b"Desc".to_vec(), 0), Ok(()));
    assert_eq!(voting.vote(Origin::Signed(2), 0, true, 0), Ok(()));
    assert_eq!(voting.vote(Origin::Signed(3), 0, false, 0), Ok(()));
    assert_eq!(
        voting.vote(Origin::Signed(2), 0, true, 0),
        Err(DispatchError::Module(Error::AlreadyVoted))
    );
    let (_, _, _, _, for_votes, against_votes, _) = voting.proposals(0).unwrap();
    assert_eq!(for_votes, 1);
    assert_eq!(against_votes, 1);
    assert_eq!(voting.votes(0, 2), Some(true));
    assert_eq!(voting.votes(0, 3), Some(false));
}

#[test]
fn test_expiry_logic() {
    let mut voting = new_pallet();
    assert_eq!(voting.create_proposal(Origin::Signed(1), b"Test".to_vec(), b"Desc".to_vec(), 0), Ok(()));
    // Block 11 is past the expiry (10 blocks after block 0).
    assert_eq!(
        voting.vote(Origin::Signed(2), 0, true, 11),
        Err(DispatchError::Module(Error::ProposalExpired))
    );
    assert_eq!(voting.votes(0, 2), None);
    assert_eq!(voting.events().len(), 1);
}

#[test]
fn test_voting_results() {
    let mut voting = new_pallet();
    assert_eq!(voting.create_proposal(Origin::Signed(1), b"Test".to_vec(), b"Desc".to_vec(), 0), Ok(()));
    assert_eq!(voting.vote(Origin::Signed(2), 0, true, 0), Ok(()));
    assert_eq!(voting.vote(Origin::Signed(3), 0, true, 0), Ok(()));
    assert_eq!(voting.vote(Origin::Signed(4), 0, false, 0), Ok(()));
    assert_eq!(voting.finalize_proposal(Origin::Signed(1), 0, 11), Ok(()));
    let (_, _, _, _, for_votes, against_votes, outcome) = voting.proposals(0).unwrap();
    assert_eq!(for_votes, 2);
    assert_eq!(against_votes, 1);
    assert_eq!(outcome, Some(true)); // 2/3 > 50%
}

#[test]
fn expiry_is_creation_block_plus_expiration() {
    let mut voting = new_pallet();
    assert_eq!(voting.create_proposal(Origin::Signed(7), b"T".to_vec(), b"D".to_vec(), 5), Ok(()));
    let (_, _, _, expiry, _, _, _) = voting.proposals(0).unwrap();
    assert_eq!(expiry, 15);
    // The last block before expiry still takes votes; the expiry block does not.
    assert_eq!(voting.vote(Origin::Signed(1), 0, true, 14), Ok(()));
    assert_eq!(
        voting.vote(Origin::Signed(2), 0, true, 15),
        Err(DispatchError::Module(Error::ProposalExpired))
    );
}

#[test]
fn ids_are_consecutive_and_events_recorded() {
    let mut voting = new_pallet();
    assert_eq!(voting.next_proposal_id(), 0);
    assert_eq!(voting.create_proposal(Origin::Signed(1), b"a".to_vec(), b"b".to_vec(), 0), Ok(()));
    assert_eq!(voting.create_proposal(Origin::Signed(2), b"c".to_vec(), b"d".to_vec(), 0), Ok(()));
    assert_eq!(voting.next_proposal_id(), 2);
    assert_eq!(voting.proposals(1).unwrap().2, 2);
    assert!(voting.proposals(2).is_none());
    assert_eq!(voting.vote(Origin::Signed(9), 1, false, 3), Ok(()));
    assert_eq!(voting.finalize_proposal(Origin::Signed(9), 1, 10), Ok(()));
    assert_eq!(
        voting.events().clone(),
        vec![
            Event::ProposalCreated { proposal_id: 0, creator: 1 },
            Event::ProposalCreated { proposal_id: 1, creator: 2 },
            Event::VoteCast { proposal_id: 1, voter: 9, is_for: false },
            Event::ProposalOutcome { proposal_id: 1, passed: false },
        ]
    );
}

#[test]
fn unsigned_and_root_origins_are_refused() {
    let mut voting = new_pallet();
    assert_eq!(
        voting.create_proposal(Origin::Root, b"a".to_vec(), b"b".to_vec(), 0),
        Err(DispatchError::BadOrigin)
    );
    assert_eq!(
        voting.create_proposal(Origin::Unsigned, b"a".to_vec(), b"b".to_vec(), 0),
        Err(DispatchError::BadOrigin)
    );
    assert_eq!(voting.next_proposal_id(), 0);
    assert_eq!(voting.create_proposal(Origin::Signed(1), b"a".to_vec(), b"b".to_vec(), 0), Ok(()));
    assert_eq!(voting.vote(Origin::Unsigned, 0, true, 0), Err(DispatchError::BadOrigin));
    assert_eq!(voting.finalize_proposal(Origin::Root, 0, 20), Err(DispatchError::BadOrigin));
    assert!(voting.events().len() == 1);
}

#[test]
fn texts_longer_than_max_length_are_refused() {
    let mut voting = new_pallet();
    let long = vec![b'x'; 101];
    let exact = vec![b'x'; 100];
    assert_eq!(
        voting.create_proposal(Origin::Signed(1), long.clone(), b"ok".to_vec(), 0),
        Err(DispatchError::Module(Error::TextTooLong))
    );
    assert_eq!(
        voting.create_proposal(Origin::Signed(1), b"ok".to_vec(), long, 0),
        Err(DispatchError::Module(Error::TextTooLong))
    );
    assert_eq!(voting.next_proposal_id(), 0);
    assert!(voting.events().is_empty());
    assert_eq!(voting.create_proposal(Origin::Signed(1), exact.clone(), exact, 0), Ok(()));
}

#[test]
fn unknown_proposals_are_refused() {
    let mut voting = new_pallet();
    assert_eq!(
        voting.vote(Origin::Signed(1), 0, true, 0),
        Err(DispatchError::Module(Error::ProposalNotFound))
    );
    assert_eq!(
        voting.finalize_proposal(Origin::Signed(1), 3, 0),
        Err(DispatchError::Module(Error::ProposalNotFound))
    );
}

#[test]
fn finalizing_before_expiry_is_refused() {
    let mut voting = new_pallet();
    assert_eq!(voting.create_proposal(Origin::Signed(1), b"a".to_vec(), b"b".to_vec(), 0), Ok(()));
    assert_eq!(
        voting.finalize_proposal(Origin::Signed(1), 0, 9),
        Err(DispatchError::Module(Error::ProposalNotExpired))
    );
    assert_eq!(voting.proposals(0).unwrap().6, None);
    assert_eq!(voting.finalize_proposal(Origin::Signed(1), 0, 10), Ok(()));
}

#[test]
fn decided_proposals_stay_decided() {
    let mut voting = new_pallet();
    assert_eq!(voting.create_proposal(Origin::Signed(1), b"a".to_vec(), b"b".to_vec(), 0), Ok(()));
    assert_eq!(voting.vote(Origin::Signed(2), 0, true, 1), Ok(()));
    assert_eq!(voting.finalize_proposal(Origin::Signed(3), 0, 10), Ok(()));
    assert_eq!(voting.proposals(0).unwrap().6, Some(true));
    assert_eq!(
        voting.finalize_proposal(Origin::Signed(3), 0, 11),
        Err(DispatchError::Module(Error::ProposalExpired))
    );
    assert_eq!(
        voting.vote(Origin::Signed(4), 0, false, 5),
        Err(DispatchError::Module(Error::ProposalExpired))
    );
    let (_, _, _, _, for_votes, against_votes, outcome) = voting.proposals(0).unwrap();
    assert_eq!((for_votes, against_votes, outcome), (1, 0, Some(true)));
}

#[test]
fn ties_and_empty_proposals_fail() {
    let mut voting = new_pallet();
    assert_eq!(voting.create_proposal(Origin::Signed(1), b"a".to_vec(), b"b".to_vec(), 0), Ok(()));
    assert_eq!(voting.create_proposal(Origin::Signed(1), b"c".to_vec(), b"d".to_vec(), 0), Ok(()));
    assert_eq!(voting.vote(Origin::Signed(2), 0, true, 0), Ok(()));
    assert_eq!(voting.vote(Origin::Signed(3), 0, false, 0), Ok(()));
    assert_eq!(voting.finalize_proposal(Origin::Signed(1), 0, 10), Ok(()));
    assert_eq!(voting.finalize_proposal(Origin::Signed(1), 1, 10), Ok(()));
    assert_eq!(voting.proposals(0).unwrap().6, Some(false));
    assert_eq!(voting.proposals(1).unwrap().6, Some(false));
}

#[test]
fn votes_are_per_proposal() {
    let mut voting = new_pallet();
    assert_eq!(voting.create_proposal(Origin::Signed(1), b"a".to_vec(), b"b".to_vec(), 0), Ok(()));
    assert_eq!(voting.create_proposal(Origin::Signed(1), b"c".to_vec(), b"d".to_vec(), 0), Ok(()));
    assert_eq!(voting.vote(Origin::Signed(5), 0, true, 0), Ok(()));
    assert_eq!(voting.vote(Origin::Signed(5), 1, false, 0), Ok(()));
    assert_eq!(voting.votes(0, 5), Some(true));
    assert_eq!(voting.votes(1, 5), Some(false));
    assert_eq!(voting.votes(1, 6), None);
    assert_eq!(voting.proposals(0).unwrap().4, 1);
    assert_eq!(voting.proposals(1).unwrap().5, 1);
}
