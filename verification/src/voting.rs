//! A proposal-voting state machine.
//!
//! Accounts create proposals, cast one vote each on a proposal while it is
//! open, and anyone may finalize a proposal once its voting period is over,
//! which fixes its outcome. Every call is made by an origin, at a block
//! number; a refused call changes nothing.

use vstd::prelude::*;

verus! {

/// The constants a runtime chooses for the voting pallet.
#[derive(Clone, Copy, Debug)]
pub struct Config {
    /// Number of blocks after creation at which a proposal expires.
    pub proposal_expiration: u64,
    /// Maximum length, in bytes, of a proposal title and of its description.
    pub max_length: u32,
}

/// Who makes a call.
#[derive(Clone, Copy, Debug, PartialEq, Eq, Structural)]
pub enum Origin {
    /// The privileged root origin.
    Root,
    /// A call signed by an account.
    Signed(u64),
    /// A call that no account signed.
    Unsigned,
}

/// Reasons the pallet refuses a call.
#[derive(Clone, Copy, Debug, PartialEq, Eq, Structural)]
pub enum Error {
    /// Proposal ID already exists.
    ProposalExists,
    /// Proposal does not exist.
    ProposalNotFound,
    /// Proposal has expired.
    ProposalExpired,
    /// Already voted on this proposal.
    AlreadyVoted,
    /// Title or description exceeds max length.
    TextTooLong,
    /// Arithmetic overflow in vote counting.
    Overflow,
    /// Proposal has not expired yet, so it cannot be finalized.
    ProposalNotExpired,
}

/// Why a call failed: its origin was not a signed account, or the pallet
/// refused it.
#[derive(Clone, Copy, Debug, PartialEq, Eq, Structural)]
pub enum DispatchError {
    BadOrigin,
    Module(Error),
}

/// What a successful call records.
#[derive(Clone, Copy, Debug, PartialEq, Eq, Structural)]
pub enum Event {
    /// A proposal has been created.
    ProposalCreated { proposal_id: u32, creator: u64 },
    /// A vote has been cast.
    VoteCast { proposal_id: u32, voter: u64, is_for: bool },
    /// A proposal's outcome has been determined.
    ProposalOutcome { proposal_id: u32, passed: bool },
}

/// A stored proposal.
pub struct Proposal {
    pub title: Vec<u8>,
    pub description: Vec<u8>,
    pub creator: u64,
    /// The block from which on the proposal takes no votes.
    pub expiry: u64,
    pub for_votes: u32,
    pub against_votes: u32,
    /// `None` while open; `Some(passed)` once finalized.
    pub outcome: Option<bool>,
}

/// A proposal as a mathematical value.
pub struct ProposalView {
    pub title: Seq<u8>,
    pub description: Seq<u8>,
    pub creator: u64,
    pub expiry: u64,
    pub for_votes: u32,
    pub against_votes: u32,
    pub outcome: Option<bool>,
}

impl View for Proposal {
    type V = ProposalView;

    open spec fn view(&self) -> ProposalView {
        ProposalView {
            title: self.title@,
            description: self.description@,
            creator: self.creator,
            expiry: self.expiry,
            for_votes: self.for_votes,
            against_votes: self.against_votes,
            outcome: self.outcome,
        }
    }
}

/// One recorded vote.
#[derive(Clone, Copy, Debug)]
pub struct VoteRecord {
    pub proposal_id: u32,
    pub voter: u64,
    pub is_for: bool,
}

impl VoteRecord {
    pub open spec fn key(self) -> (u32, u64) {
        (self.proposal_id, self.voter)
    }
}

/// The whole state of the pallet as mathematical values: the proposals,
/// where a proposal's ID is its index; the votes, keyed by proposal ID and
/// voter; and the events recorded so far.
pub struct PalletState {
    pub config: Config,
    pub proposals: Seq<ProposalView>,
    pub votes: Map<(u32, u64), bool>,
    pub events: Seq<Event>,
}

/// The voters that cast a vote of the given kind on a proposal.
pub open spec fn voters_with(votes: Map<(u32, u64), bool>, proposal_id: u32, is_for: bool) -> Set<(u32, u64)> {
    votes.dom().filter(|k: (u32, u64)| k.0 == proposal_id && votes[k] == is_for)
}

/// The number of votes of the given kind cast on a proposal.
pub open spec fn vote_count(votes: Map<(u32, u64), bool>, proposal_id: u32, is_for: bool) -> nat {
    voters_with(votes, proposal_id, is_for).len()
}

/// The outcome of a proposal with the given tallies: it passes when the
/// votes for it are more than half of all votes; with no votes it fails.
pub open spec fn spec_passed(for_votes: u32, against_votes: u32) -> bool {
    let total = for_votes + against_votes;
    if total > 0 {
        for_votes > total / 2
    } else {
        false
    }
}

pub open spec fn refused(reason: Error) -> Result<(), DispatchError> {
    Err(DispatchError::Module(reason))
}

impl PalletState {
    /// The state of a freshly deployed pallet.
    pub open spec fn initial(config: Config) -> PalletState {
        PalletState {
            config,
            proposals: Seq::empty(),
            votes: Map::empty(),
            events: Seq::empty(),
        }
    }

    /// The ID the next proposal gets.
    pub open spec fn next_proposal_id(self) -> nat {
        self.proposals.len()
    }

    /// What every reachable state satisfies: IDs fit in `u32`, every vote is
    /// on an existing proposal, each proposal's tallies are the numbers of
    /// votes recorded for and against it, and titles and descriptions are
    /// within the configured length.
    pub open spec fn wf(self) -> bool {
        &&& self.proposals.len() <= u32::MAX
        &&& self.votes.dom().finite()
        &&& forall|k: (u32, u64)| #[trigger] self.votes.dom().contains(k) ==> (k.0 as int) < self.proposals.len()
        &&& forall|i: int| 0 <= i < self.proposals.len() ==> #[trigger] self.proposal_ok(i)
    }

    /// Proposal `i` is tallied from the recorded votes and its texts are
    /// within the configured length.
    pub open spec fn proposal_ok(self, i: int) -> bool {
        &&& self.proposals[i].for_votes == vote_count(self.votes, i as u32, true)
        &&& self.proposals[i].against_votes == vote_count(self.votes, i as u32, false)
        &&& self.proposals[i].title.len() <= self.config.max_length
        &&& self.proposals[i].description.len() <= self.config.max_length
    }

    /// The state with its proposal `id` replaced and an event recorded.
    pub open spec fn with_proposal(self, id: u32, p: ProposalView, votes: Map<(u32, u64), bool>, e: Event) -> PalletState {
        PalletState {
            config: self.config,
            proposals: self.proposals.update(id as int, p),
            votes,
            events: self.events.push(e),
        }
    }

    /// Whether creating a proposal would store it (all checks pass).
    pub open spec fn create_writes(self, origin: Origin, title_len: nat, description_len: nat) -> bool {
        &&& origin is Signed
        &&& title_len <= self.config.max_length
        &&& description_len <= self.config.max_length
    }

    /// The inputs on which creating a proposal is defined: where it stores
    /// one, the next ID and the expiry block must fit their types.
    pub open spec fn create_defined(self, origin: Origin, title_len: nat, description_len: nat, now: u64) -> bool {
        self.create_writes(origin, title_len, description_len) ==> {
            &&& self.proposals.len() < u32::MAX
            &&& now + self.config.proposal_expiration <= u64::MAX
        }
    }

    /// Creating a proposal: the origin must be signed and the title and
    /// description within the maximum length; the proposal gets the next
    /// ID, expires `proposal_expiration` blocks from `now`, starts with no
    /// votes and no outcome, and a `ProposalCreated` event is recorded.
    pub open spec fn create_step(self, origin: Origin, title: Seq<u8>, description: Seq<u8>, now: u64) -> (PalletState, Result<(), DispatchError>) {
        match origin {
            Origin::Signed(creator) => {
                if title.len() > self.config.max_length {
                    (self, refused(Error::TextTooLong))
                } else if description.len() > self.config.max_length {
                    (self, refused(Error::TextTooLong))
                } else {
                    let id = self.proposals.len() as u32;
                    let p = ProposalView {
                        title,
                        description,
                        creator,
                        expiry: (now + self.config.proposal_expiration) as u64,
                        for_votes: 0,
                        against_votes: 0,
                        outcome: None,
                    };
                    (
                        PalletState {
                            config: self.config,
                            proposals: self.proposals.push(p),
                            votes: self.votes,
                            events: self.events.push(Event::ProposalCreated { proposal_id: id, creator }),
                        },
                        Ok(()),
                    )
                }
            },
            _ => (self, Err(DispatchError::BadOrigin)),
        }
    }

    /// Whether the tally a vote of the given kind adds to is at its maximum.
    pub open spec fn tally_full(p: ProposalView, is_for: bool) -> bool {
        if is_for {
            p.for_votes == u32::MAX
        } else {
            p.against_votes == u32::MAX
        }
    }

    /// Whether a vote would be recorded (all checks pass).
    pub open spec fn vote_writes(self, origin: Origin, proposal_id: u32, is_for: bool, now: u64) -> bool {
        &&& origin is Signed
        &&& (proposal_id as int) < self.proposals.len()
        &&& self.proposals[proposal_id as int].outcome is None
        &&& now < self.proposals[proposal_id as int].expiry
        &&& !self.votes.dom().contains((proposal_id, origin->Signed_0))
        &&& !Self::tally_full(self.proposals[proposal_id as int], is_for)
    }

    /// Voting: the origin must be signed, the proposal must exist, have no
    /// outcome yet and not be expired at `now`, and the voter must not have
    /// voted on it, and the tally the vote adds to must not be at its
    /// maximum (else `Overflow`); the vote is recorded, the matching tally
    /// grows by one, and a `VoteCast` event is recorded.
    pub open spec fn vote_step(self, origin: Origin, proposal_id: u32, is_for: bool, now: u64) -> (PalletState, Result<(), DispatchError>) {
        match origin {
            Origin::Signed(voter) => {
                if (proposal_id as int) >= self.proposals.len() {
                    (self, refused(Error::ProposalNotFound))
                } else {
                    let p = self.proposals[proposal_id as int];
                    if p.outcome is Some {
                        (self, refused(Error::ProposalExpired))
                    } else if now >= p.expiry {
                        (self, refused(Error::ProposalExpired))
                    } else if self.votes.dom().contains((proposal_id, voter)) {
                        (self, refused(Error::AlreadyVoted))
                    } else if Self::tally_full(p, is_for) {
                        (self, refused(Error::Overflow))
                    } else {
                        let q = ProposalView {
                            for_votes: if is_for { (p.for_votes + 1) as u32 } else { p.for_votes },
                            against_votes: if is_for { p.against_votes } else { (p.against_votes + 1) as u32 },
                            ..p
                        };
                        (
                            self.with_proposal(
                                proposal_id,
                                q,
                                self.votes.insert((proposal_id, voter), is_for),
                                Event::VoteCast { proposal_id, voter, is_for },
                            ),
                            Ok(()),
                        )
                    }
                }
            },
            _ => (self, Err(DispatchError::BadOrigin)),
        }
    }

    /// Finalizing: the origin must be signed, the proposal must exist and
    /// have no outcome yet, `now` must be at or past its expiry, and the two
    /// tallies must add up within `u32`; the outcome becomes `spec_passed`
    /// of the tallies and a `ProposalOutcome` event is recorded. A proposal
    /// that has not expired yet is refused with `ProposalNotExpired`.
    pub open spec fn finalize_step(self, origin: Origin, proposal_id: u32, now: u64) -> (PalletState, Result<(), DispatchError>) {
        match origin {
            Origin::Signed(_) => {
                if (proposal_id as int) >= self.proposals.len() {
                    (self, refused(Error::ProposalNotFound))
                } else {
                    let p = self.proposals[proposal_id as int];
                    if p.outcome is Some {
                        (self, refused(Error::ProposalExpired))
                    } else if now < p.expiry {
                        (self, refused(Error::ProposalNotExpired))
                    } else if p.for_votes + p.against_votes > u32::MAX {
                        (self, refused(Error::Overflow))
                    } else {
                        let passed = spec_passed(p.for_votes, p.against_votes);
                        (
                            self.with_proposal(
                                proposal_id,
                                ProposalView { outcome: Some(passed), ..p },
                                self.votes,
                                Event::ProposalOutcome { proposal_id, passed },
                            ),
                            Ok(()),
                        )
                    }
                }
            },
            _ => (self, Err(DispatchError::BadOrigin)),
        }
    }
}


/// Recording a new vote adds its voter to exactly one voter set: the one of
/// its proposal and kind.
pub proof fn lemma_voters_with_insert(
    votes: Map<(u32, u64), bool>,
    k: (u32, u64),
    b: bool,
    proposal_id: u32,
    is_for: bool,
)
    requires
        votes.dom().finite(),
        !votes.dom().contains(k),
    ensures
        voters_with(votes, proposal_id, is_for).finite(),
        vote_count(votes.insert(k, b), proposal_id, is_for) == vote_count(votes, proposal_id, is_for) + (
        if k.0 == proposal_id && b == is_for {
            1int
        } else {
            0int
        }),
{
    let m = votes.insert(k, b);
    let before = voters_with(votes, proposal_id, is_for);
    let after = voters_with(m, proposal_id, is_for);
    votes.dom().lemma_len_filter(|x: (u32, u64)| x.0 == proposal_id && votes[x] == is_for);
    if k.0 == proposal_id && b == is_for {
        assert(after =~= before.insert(k));
    } else {
        assert(after =~= before);
    }
}

/// A proposal that no recorded vote refers to has no votes of either kind.
pub proof fn lemma_no_votes_for(votes: Map<(u32, u64), bool>, proposal_id: u32, is_for: bool)
    requires
        forall|k: (u32, u64)| #[trigger] votes.dom().contains(k) ==> k.0 != proposal_id,
    ensures
        vote_count(votes, proposal_id, is_for) == 0,
{
    assert(voters_with(votes, proposal_id, is_for) =~= Set::empty());
}

impl PalletState {
    /// Creating a proposal keeps the state well formed.
    pub proof fn lemma_create_keeps_wf(self, origin: Origin, title: Seq<u8>, description: Seq<u8>, now: u64)
        requires
            self.wf(),
            self.create_writes(origin, title.len(), description.len()) ==> self.proposals.len()
                < u32::MAX,
        ensures
            self.create_step(origin, title, description, now).0.wf(),
    {
        let s = self.create_step(origin, title, description, now).0;
        if self.create_writes(origin, title.len(), description.len()) {
            let id = self.proposals.len() as u32;
            assert forall|k: (u32, u64)| #[trigger] self.votes.dom().contains(k) implies k.0 != id by {}
            lemma_no_votes_for(self.votes, id, true);
            lemma_no_votes_for(self.votes, id, false);
            assert forall|i: int| 0 <= i < s.proposals.len() implies s.proposal_ok(i) by {
                if i < self.proposals.len() {
                    assert(s.proposals[i] == self.proposals[i]);
                    assert(self.proposal_ok(i));
                } else {
                    assert(i as u32 == id);
                    assert(s.proposals[i].title == title);
                }
            }
        }
    }

    /// The tallies after a recorded vote are the counts of the new votes.
    proof fn lemma_vote_tallies(self, proposal_id: u32, voter: u64, is_for: bool, s: PalletState)
        requires
            self.wf(),
            (proposal_id as int) < self.proposals.len(),
            !self.votes.dom().contains((proposal_id, voter)),
            s.config == self.config,
            s.votes == self.votes.insert((proposal_id, voter), is_for),
            s.proposals.len() == self.proposals.len(),
            forall|i: int| 0 <= i < self.proposals.len() && i != proposal_id as int ==> s.proposals[i] == self.proposals[i],
            s.proposals[proposal_id as int].title == self.proposals[proposal_id as int].title,
            s.proposals[proposal_id as int].description == self.proposals[proposal_id as int].description,
            s.proposals[proposal_id as int].for_votes == self.proposals[proposal_id as int].for_votes + (if is_for { 1int } else { 0int }),
            s.proposals[proposal_id as int].against_votes == self.proposals[proposal_id as int].against_votes + (if is_for { 0int } else { 1int }),
        ensures
            forall|i: int| 0 <= i < s.proposals.len() ==> #[trigger] s.proposal_ok(i),
    {
        let k = (proposal_id, voter);
        assert forall|i: int| 0 <= i < s.proposals.len() implies s.proposal_ok(i) by {
            lemma_voters_with_insert(self.votes, k, is_for, i as u32, true);
            lemma_voters_with_insert(self.votes, k, is_for, i as u32, false);
            assert(self.proposal_ok(i));
            if i == proposal_id as int {
                assert(k.0 == i as u32);
            } else {
                assert(k.0 != i as u32);
            }
        }
    }

    /// Voting keeps the state well formed.
    pub proof fn lemma_vote_keeps_wf(self, origin: Origin, proposal_id: u32, is_for: bool, now: u64)
        requires
            self.wf(),
        ensures
            self.vote_step(origin, proposal_id, is_for, now).0.wf(),
    {
        let s = self.vote_step(origin, proposal_id, is_for, now).0;
        if self.vote_writes(origin, proposal_id, is_for, now) {
            let voter = origin->Signed_0;
            let k = (proposal_id, voter);
            self.lemma_vote_tallies(proposal_id, voter, is_for, s);
            assert forall|k2: (u32, u64)| #[trigger] s.votes.dom().contains(k2) implies (k2.0 as int) < s.proposals.len() by {
                if k2 != k {
                    assert(self.votes.dom().contains(k2));
                }
            }
            assert(s.votes.dom() =~= self.votes.dom().insert(k));
        } else {
            assert(s == self);
        }
    }

    /// Finalizing keeps the state well formed.
    pub proof fn lemma_finalize_keeps_wf(self, origin: Origin, proposal_id: u32, now: u64)
        requires
            self.wf(),
        ensures
            self.finalize_step(origin, proposal_id, now).0.wf(),
    {
        let s = self.finalize_step(origin, proposal_id, now).0;
        assert forall|i: int| 0 <= i < s.proposals.len() implies s.proposal_ok(i) by {
            assert(self.proposal_ok(i));
        }
    }
}


/// The votes that a sequence of vote records holds, a later record of a
/// key taking precedence over an earlier one.
pub open spec fn votes_map(records: Seq<VoteRecord>) -> Map<(u32, u64), bool>
    decreases records.len(),
{
    if records.len() == 0 {
        Map::empty()
    } else {
        votes_map(records.drop_last()).insert(records.last().key(), records.last().is_for)
    }
}

/// No two records are for the same proposal and voter.
pub open spec fn keys_unique(records: Seq<VoteRecord>) -> bool {
    forall|i: int, j: int|
        0 <= i < records.len() && 0 <= j < records.len() && i != j ==> #[trigger] records[i].key()
            != #[trigger] records[j].key()
}

proof fn lemma_votes_map_dom(records: Seq<VoteRecord>, k: (u32, u64))
    ensures
        votes_map(records).dom().finite(),
        votes_map(records).dom().contains(k) <==> exists|i: int|
            0 <= i < records.len() && #[trigger] records[i].key() == k,
    decreases records.len(),
{
    if records.len() > 0 {
        let rest = records.drop_last();
        lemma_votes_map_dom(rest, k);
        if votes_map(records).dom().contains(k) {
            if records.last().key() == k {
                assert(records[records.len() - 1].key() == k);
            } else {
                let i = choose|i: int| 0 <= i < rest.len() && #[trigger] rest[i].key() == k;
                assert(records[i].key() == k);
            }
        }
        if exists|i: int| 0 <= i < records.len() && #[trigger] records[i].key() == k {
            let i = choose|i: int| 0 <= i < records.len() && #[trigger] records[i].key() == k;
            if i < records.len() - 1 {
                assert(rest[i].key() == k);
            }
        }
    }
}

proof fn lemma_votes_map_value(records: Seq<VoteRecord>, i: int)
    requires
        keys_unique(records),
        0 <= i < records.len(),
    ensures
        votes_map(records).dom().contains(records[i].key()),
        votes_map(records)[records[i].key()] == records[i].is_for,
    decreases records.len(),
{
    let rest = records.drop_last();
    if i < records.len() - 1 {
        assert(records[i].key() != records[records.len() - 1].key());
        assert(rest[i] == records[i]);
        assert(keys_unique(rest)) by {
            assert forall|a: int, b: int|
                0 <= a < rest.len() && 0 <= b < rest.len() && a != b implies #[trigger] rest[a].key()
                != #[trigger] rest[b].key() by {
                assert(rest[a] == records[a] && rest[b] == records[b]);
            }
        }
        lemma_votes_map_value(rest, i);
    }
}

/// The voting pallet: its configuration, the stored proposals (a proposal's
/// ID is its index), the recorded votes and the events it has emitted.
pub struct Pallet {
    config: Config,
    proposals: Vec<Proposal>,
    votes: Vec<VoteRecord>,
    events: Vec<Event>,
}

impl View for Pallet {
    type V = PalletState;

    closed spec fn view(&self) -> PalletState {
        PalletState {
            config: self.config,
            proposals: self.proposals@.map_values(|p: Proposal| p@),
            votes: votes_map(self.votes@),
            events: self.events@,
        }
    }
}

/// The account that signed a call, or `BadOrigin`.
pub fn ensure_signed(origin: Origin) -> (r: Result<u64, DispatchError>)
    ensures
        r == (match origin {
            Origin::Signed(who) => Ok(who),
            _ => Err(DispatchError::BadOrigin),
        }),
{
    match origin {
        Origin::Signed(who) => Ok(who),
        _ => Err(DispatchError::BadOrigin),
    }
}

impl Pallet {
    /// What the pallet keeps true between calls.
    pub closed spec fn inv(&self) -> bool {
        &&& self@.wf()
        &&& keys_unique(self.votes@)
    }

    /// A pallet with the given configuration and no proposals.
    pub fn new(config: Config) -> (pallet: Pallet)
        ensures
            pallet.inv(),
            pallet@ == PalletState::initial(config),
    {
        let pallet = Pallet { config, proposals: Vec::new(), votes: Vec::new(), events: Vec::new() };
        assert(pallet@.proposals =~= Seq::<ProposalView>::empty());
        assert(pallet@.votes =~= Map::<(u32, u64), bool>::empty());
        pallet
    }

    /// The vote `voter` cast on `proposal_id`, if any.
    fn find_vote(&self, proposal_id: u32, voter: u64) -> (r: Option<bool>)
        requires
            keys_unique(self.votes@),
        ensures
            r == (if self@.votes.dom().contains((proposal_id, voter)) {
                Some(self@.votes[(proposal_id, voter)])
            } else {
                None
            }),
    {
        let ghost k = (proposal_id, voter);
        let mut i: usize = 0;
        while i < self.votes.len()
            invariant
                0 <= i <= self.votes.len(),
                keys_unique(self.votes@),
                k == (proposal_id, voter),
                forall|j: int| 0 <= j < i ==> #[trigger] self.votes@[j].key() != k,
            decreases self.votes.len() - i,
        {
            let record = self.votes[i];
            if record.proposal_id == proposal_id && record.voter == voter {
                proof {
                    lemma_votes_map_value(self.votes@, i as int);
                }
                return Some(record.is_for);
            }
            i = i + 1;
        }
        proof {
            lemma_votes_map_dom(self.votes@, k);
        }
        None
    }

    /// Creates a proposal with the next ID, signed by `origin`, at block
    /// `now`.
    pub fn create_proposal(&mut self, origin: Origin, title: Vec<u8>, description: Vec<u8>, now: u64) -> (r: Result<(), DispatchError>)
        requires
            old(self).inv(),
            old(self)@.create_defined(origin, title@.len(), description@.len(), now),
        ensures
            final(self).inv(),
            (final(self)@, r) == old(self)@.create_step(origin, title@, description@, now),
    {
        proof {
            old(self)@.lemma_create_keeps_wf(origin, title@, description@, now);
        }
        let creator = match ensure_signed(origin) {
            Ok(who) => who,
            Err(e) => return Err(e),
        };
        if title.len() > self.config.max_length as usize {
            return Err(DispatchError::Module(Error::TextTooLong));
        }
        if description.len() > self.config.max_length as usize {
            return Err(DispatchError::Module(Error::TextTooLong));
        }
        let proposal_id = self.proposals.len() as u32;
        let expiry = now + self.config.proposal_expiration;
        let ghost before = self.proposals@;
        self.proposals.push(
            Proposal {
                title,
                description,
                creator,
                expiry,
                for_votes: 0,
                against_votes: 0,
                outcome: None,
            },
        );
        self.events.push(Event::ProposalCreated { proposal_id, creator });
        proof {
            assert(self.proposals@.map_values(|p: Proposal| p@) =~= before.map_values(
                |p: Proposal| p@,
            ).push(self.proposals@[before.len() as int]@));
        }
        Ok(())
    }

    /// Casts `origin`'s vote on `proposal_id` at block `now`: for it when
    /// `is_for`, against it otherwise.
    pub fn vote(&mut self, origin: Origin, proposal_id: u32, is_for: bool, now: u64) -> (r: Result<(), DispatchError>)
        requires
            old(self).inv(),
        ensures
            final(self).inv(),
            (final(self)@, r) == old(self)@.vote_step(origin, proposal_id, is_for, now),
    {
        proof {
            old(self)@.lemma_vote_keeps_wf(origin, proposal_id, is_for, now);
        }
        let voter = match ensure_signed(origin) {
            Ok(who) => who,
            Err(e) => return Err(e),
        };
        let index = proposal_id as usize;
        if index >= self.proposals.len() {
            return Err(DispatchError::Module(Error::ProposalNotFound));
        }
        if self.proposals[index].outcome.is_some() {
            return Err(DispatchError::Module(Error::ProposalExpired));
        }
        if now >= self.proposals[index].expiry {
            return Err(DispatchError::Module(Error::ProposalExpired));
        }
        if self.find_vote(proposal_id, voter).is_some() {
            return Err(DispatchError::Module(Error::AlreadyVoted));
        }
        let counted = if is_for {
            self.proposals[index].for_votes.checked_add(1)
        } else {
            self.proposals[index].against_votes.checked_add(1)
        };
        let count = match counted {
            Some(count) => count,
            None => return Err(DispatchError::Module(Error::Overflow)),
        };
        let ghost old_votes = self.votes@;
        let ghost old_proposals = self.proposals@;
        proof {
            lemma_votes_map_dom(old_votes, (proposal_id, voter));
        }
        self.votes.push(VoteRecord { proposal_id, voter, is_for });
        let mut proposal = Proposal {
            title: Vec::new(),
            description: Vec::new(),
            creator: 0,
            expiry: 0,
            for_votes: 0,
            against_votes: 0,
            outcome: None,
        };
        self.proposals.set_and_swap(index, &mut proposal);
        if is_for {
            proposal.for_votes = count;
        } else {
            proposal.against_votes = count;
        }
        self.proposals.set(index, proposal);
        self.events.push(Event::VoteCast { proposal_id, voter, is_for });
        proof {
            assert(self.votes@.drop_last() =~= old_votes);
            assert(self.proposals@.map_values(|p: Proposal| p@) =~= old_proposals.map_values(
                |p: Proposal| p@,
            ).update(index as int, self.proposals@[index as int]@));
            assert forall|i: int, j: int|
                0 <= i < self.votes@.len() && 0 <= j < self.votes@.len() && i != j implies #[trigger] self.votes@[i].key()
                != #[trigger] self.votes@[j].key() by {
                if i < old_votes.len() && j < old_votes.len() {
                    assert(old_votes[i] == self.votes@[i] && old_votes[j] == self.votes@[j]);
                } else if i < old_votes.len() {
                    assert(old_votes[i] == self.votes@[i]);
                } else {
                    assert(old_votes[j] == self.votes@[j]);
                }
            }
        }
        Ok(())
    }

    /// Fixes the outcome of `proposal_id` once it has expired at block
    /// `now`; any signed account may do so.
    pub fn finalize_proposal(&mut self, origin: Origin, proposal_id: u32, now: u64) -> (r: Result<(), DispatchError>)
        requires
            old(self).inv(),
        ensures
            final(self).inv(),
            (final(self)@, r) == old(self)@.finalize_step(origin, proposal_id, now),
    {
        proof {
            old(self)@.lemma_finalize_keeps_wf(origin, proposal_id, now);
        }
        match ensure_signed(origin) {
            Ok(_) => {},
            Err(e) => return Err(e),
        }
        let index = proposal_id as usize;
        if index >= self.proposals.len() {
            return Err(DispatchError::Module(Error::ProposalNotFound));
        }
        if self.proposals[index].outcome.is_some() {
            return Err(DispatchError::Module(Error::ProposalExpired));
        }
        if now < self.proposals[index].expiry {
            return Err(DispatchError::Module(Error::ProposalNotExpired));
        }
        let for_votes = self.proposals[index].for_votes;
        let against_votes = self.proposals[index].against_votes;
        let total_votes = match for_votes.checked_add(against_votes) {
            Some(total) => total,
            None => return Err(DispatchError::Module(Error::Overflow)),
        };
        let passed = if total_votes > 0 {
            for_votes > total_votes / 2
        } else {
            false
        };
        let ghost old_proposals = self.proposals@;
        let mut proposal = Proposal {
            title: Vec::new(),
            description: Vec::new(),
            creator: 0,
            expiry: 0,
            for_votes: 0,
            against_votes: 0,
            outcome: None,
        };
        self.proposals.set_and_swap(index, &mut proposal);
        proposal.outcome = Some(passed);
        self.proposals.set(index, proposal);
        self.events.push(Event::ProposalOutcome { proposal_id, passed });
        proof {
            assert(self.proposals@.map_values(|p: Proposal| p@) =~= old_proposals.map_values(
                |p: Proposal| p@,
            ).update(index as int, self.proposals@[index as int]@));
        }
        Ok(())
    }

    /// The ID the next proposal gets.
    pub fn next_proposal_id(&self) -> (id: u32)
        requires
            self.inv(),
        ensures
            id == self@.next_proposal_id(),
    {
        self.proposals.len() as u32
    }

    /// The stored proposal `proposal_id` as (title, description, creator,
    /// expiry block, votes for, votes against, outcome), if it exists.
    pub fn proposals(&self, proposal_id: u32) -> (r: Option<(Vec<u8>, Vec<u8>, u64, u64, u32, u32, Option<bool>)>)
        ensures
            (proposal_id as int) < self@.proposals.len() <==> r is Some,
            r matches Some(t) ==> {
                let p = self@.proposals[proposal_id as int];
                &&& t.0@ == p.title
                &&& t.1@ == p.description
                &&& t.2 == p.creator
                &&& t.3 == p.expiry
                &&& t.4 == p.for_votes
                &&& t.5 == p.against_votes
                &&& t.6 == p.outcome
            },
    {
        let index = proposal_id as usize;
        if index >= self.proposals.len() {
            return None;
        }
        let p = &self.proposals[index];
        let title = p.title.clone();
        let description = p.description.clone();
        assert(title@ =~= p.title@);
        assert(description@ =~= p.description@);
        Some((title, description, p.creator, p.expiry, p.for_votes, p.against_votes, p.outcome))
    }

    /// The vote `voter` cast on `proposal_id`: `Some(true)` for it,
    /// `Some(false)` against it, `None` if none.
    pub fn votes(&self, proposal_id: u32, voter: u64) -> (r: Option<bool>)
        requires
            self.inv(),
        ensures
            r == (if self@.votes.dom().contains((proposal_id, voter)) {
                Some(self@.votes[(proposal_id, voter)])
            } else {
                None
            }),
    {
        self.find_vote(proposal_id, voter)
    }

    /// The events the pallet has emitted, oldest first.
    pub fn events(&self) -> (r: &Vec<Event>)
        ensures
            r@ == self@.events,
    {
        &self.events
    }

    /// The configuration the pallet was created with.
    pub fn config(&self) -> (c: Config)
        ensures
            c == self@.config,
    {
        self.config
    }
}

} // verus!
