//! Properties of the voting pallet that span calls or hold of every state.

use vstd::prelude::*;
use crate::voting::{DispatchError, Error, Event, Origin, PalletState, spec_passed, vote_count, voters_with};

verus! {

/// A refused call changes nothing: creating, voting and finalizing leave the
/// state as it was whenever they return an error.
pub proof fn refused_calls_change_nothing(
    s: PalletState,
    origin: Origin,
    title: Seq<u8>,
    description: Seq<u8>,
    proposal_id: u32,
    is_for: bool,
    now: u64,
)
    ensures
        s.create_step(origin, title, description, now).1 is Err ==> s.create_step(
            origin,
            title,
            description,
            now,
        ).0 == s,
        s.vote_step(origin, proposal_id, is_for, now).1 is Err ==> s.vote_step(
            origin,
            proposal_id,
            is_for,
            now,
        ).0 == s,
        s.finalize_step(origin, proposal_id, now).1 is Err ==> s.finalize_step(
            origin,
            proposal_id,
            now,
        ).0 == s,
{
}

/// Every successful call deposits exactly one event, at the end of the log,
/// and no call removes or changes an earlier event.
pub proof fn one_event_per_successful_call(
    s: PalletState,
    origin: Origin,
    title: Seq<u8>,
    description: Seq<u8>,
    proposal_id: u32,
    is_for: bool,
    now: u64,
)
    ensures
        ({
            let (t, r) = s.create_step(origin, title, description, now);
            &&& r is Ok ==> t.events.len() == s.events.len() + 1
            &&& r is Err ==> t.events == s.events
            &&& t.events.subrange(0, s.events.len() as int) == s.events
        }),
        ({
            let (t, r) = s.vote_step(origin, proposal_id, is_for, now);
            &&& r is Ok ==> t.events.len() == s.events.len() + 1
            &&& r is Err ==> t.events == s.events
            &&& t.events.subrange(0, s.events.len() as int) == s.events
        }),
        ({
            let (t, r) = s.finalize_step(origin, proposal_id, now);
            &&& r is Ok ==> t.events.len() == s.events.len() + 1
            &&& r is Err ==> t.events == s.events
            &&& t.events.subrange(0, s.events.len() as int) == s.events
        }),
{
    let (t, r) = s.create_step(origin, title, description, now);
    assert(t.events.subrange(0, s.events.len() as int) =~= s.events);
    let (t, r) = s.vote_step(origin, proposal_id, is_for, now);
    assert(t.events.subrange(0, s.events.len() as int) =~= s.events);
    let (t, r) = s.finalize_step(origin, proposal_id, now);
    assert(t.events.subrange(0, s.events.len() as int) =~= s.events);
}

/// Proposal IDs are handed out consecutively from zero: a created proposal
/// gets the ID that was next, the next ID grows by one, the proposals
/// before it are untouched, and creation is never refused because the ID
/// is taken.
pub proof fn created_proposal_gets_next_id(
    s: PalletState,
    origin: Origin,
    title: Seq<u8>,
    description: Seq<u8>,
    now: u64,
)
    ensures
        s.create_step(origin, title, description, now).1 != Err::<(), DispatchError>(
            DispatchError::Module(Error::ProposalExists),
        ),
        s.create_step(origin, title, description, now).1 is Ok ==> {
            let t = s.create_step(origin, title, description, now).0;
            &&& t.next_proposal_id() == s.next_proposal_id() + 1
            &&& t.proposals.subrange(0, s.proposals.len() as int) == s.proposals
            &&& t.proposals.last().title == title
            &&& t.proposals.last().description == description
            &&& t.proposals.last().creator == origin->Signed_0
            &&& t.events.last() == (Event::ProposalCreated {
                proposal_id: s.next_proposal_id() as u32,
                creator: origin->Signed_0,
            })
        },
{
    let t = s.create_step(origin, title, description, now).0;
    assert(t.proposals.subrange(0, s.proposals.len() as int) =~= s.proposals);
}

/// A vote is only accepted on a proposal that is still open: it has no
/// outcome and the block is before its expiry. A proposal is only finalized
/// at or after its expiry, and only once.
pub proof fn voting_window(s: PalletState, origin: Origin, proposal_id: u32, is_for: bool, now: u64)
    ensures
        s.vote_step(origin, proposal_id, is_for, now).1 is Ok ==> {
            &&& (proposal_id as int) < s.proposals.len()
            &&& s.proposals[proposal_id as int].outcome is None
            &&& now < s.proposals[proposal_id as int].expiry
        },
        s.finalize_step(origin, proposal_id, now).1 is Ok ==> {
            &&& (proposal_id as int) < s.proposals.len()
            &&& s.proposals[proposal_id as int].outcome is None
            &&& now >= s.proposals[proposal_id as int].expiry
        },
{
}

/// No call removes or changes a recorded vote.
pub proof fn recorded_votes_persist(
    s: PalletState,
    origin: Origin,
    title: Seq<u8>,
    description: Seq<u8>,
    proposal_id: u32,
    is_for: bool,
    now: u64,
    k: (u32, u64),
)
    requires
        s.votes.dom().contains(k),
    ensures
        s.create_step(origin, title, description, now).0.votes.dom().contains(k),
        s.create_step(origin, title, description, now).0.votes[k] == s.votes[k],
        s.vote_step(origin, proposal_id, is_for, now).0.votes.dom().contains(k),
        s.vote_step(origin, proposal_id, is_for, now).0.votes[k] == s.votes[k],
        s.finalize_step(origin, proposal_id, now).0.votes.dom().contains(k),
        s.finalize_step(origin, proposal_id, now).0.votes[k] == s.votes[k],
{
}

/// An account that has voted on a proposal cannot vote on it again: the
/// call is refused, with `AlreadyVoted` while the proposal is open.
pub proof fn voter_cannot_vote_twice(s: PalletState, voter: u64, proposal_id: u32, is_for: bool, now: u64)
    requires
        s.wf(),
        s.votes.dom().contains((proposal_id, voter)),
    ensures
        s.vote_step(Origin::Signed(voter), proposal_id, is_for, now).1 is Err,
        s.proposals[proposal_id as int].outcome is None && now < s.proposals[proposal_id as int].expiry
            ==> s.vote_step(Origin::Signed(voter), proposal_id, is_for, now).1 == Err::<
            (),
            DispatchError,
        >(DispatchError::Module(Error::AlreadyVoted)),
{
}

/// After a successful vote, the same account's next vote on the same
/// proposal is refused, at any block and of either kind.
pub proof fn vote_then_vote_again_refused(
    s: PalletState,
    voter: u64,
    proposal_id: u32,
    first: bool,
    second: bool,
    now: u64,
    later: u64,
)
    requires
        s.wf(),
        s.vote_step(Origin::Signed(voter), proposal_id, first, now).1 is Ok,
    ensures
        s.vote_step(Origin::Signed(voter), proposal_id, first, now).0.vote_step(
            Origin::Signed(voter),
            proposal_id,
            second,
            later,
        ).1 is Err,
{
    let t = s.vote_step(Origin::Signed(voter), proposal_id, first, now).0;
    s.lemma_vote_keeps_wf(Origin::Signed(voter), proposal_id, first, now);
    voter_cannot_vote_twice(t, voter, proposal_id, second, later);
}

/// A decided proposal never changes: once its outcome is set, no call
/// alters it, its tallies or its texts.
pub proof fn decided_proposal_never_changes(
    s: PalletState,
    decided: u32,
    origin: Origin,
    title: Seq<u8>,
    description: Seq<u8>,
    proposal_id: u32,
    is_for: bool,
    now: u64,
)
    requires
        (decided as int) < s.proposals.len(),
        s.proposals[decided as int].outcome is Some,
    ensures
        s.create_step(origin, title, description, now).0.proposals[decided as int]
            == s.proposals[decided as int],
        s.vote_step(origin, proposal_id, is_for, now).0.proposals[decided as int]
            == s.proposals[decided as int],
        s.finalize_step(origin, proposal_id, now).0.proposals[decided as int]
            == s.proposals[decided as int],
{
}

/// In every reachable state, each proposal's tallies are the numbers of
/// accounts that voted for it and against it, and every recorded vote is on
/// an existing proposal.
pub proof fn tallies_count_recorded_votes(s: PalletState, proposal_id: u32)
    requires
        s.wf(),
        (proposal_id as int) < s.proposals.len(),
    ensures
        s.proposals[proposal_id as int].for_votes == vote_count(s.votes, proposal_id, true),
        s.proposals[proposal_id as int].against_votes == vote_count(s.votes, proposal_id, false),
        s.proposals[proposal_id as int].for_votes + s.proposals[proposal_id as int].against_votes
            == s.votes.dom().filter(|k: (u32, u64)| k.0 == proposal_id).len(),
{
    assert(s.proposal_ok(proposal_id as int));
    let all = s.votes.dom().filter(|k: (u32, u64)| k.0 == proposal_id);
    let yes = voters_with(s.votes, proposal_id, true);
    let no = voters_with(s.votes, proposal_id, false);
    s.votes.dom().lemma_len_filter(|k: (u32, u64)| k.0 == proposal_id);
    s.votes.dom().lemma_len_filter(|k: (u32, u64)| k.0 == proposal_id && s.votes[k] == true);
    s.votes.dom().lemma_len_filter(|k: (u32, u64)| k.0 == proposal_id && s.votes[k] == false);
    assert(all =~= yes.union(no));
    assert(yes.disjoint(no));
    vstd::set_lib::lemma_set_disjoint_lens(yes, no);
}

/// A proposal passes exactly when it has more votes for it than against it.
pub proof fn passes_iff_more_for_than_against(for_votes: u32, against_votes: u32)
    ensures
        spec_passed(for_votes, against_votes) <==> for_votes > against_votes,
{
}

/// Finalizing a proposal decides it by its recorded votes: it passes exactly
/// when more accounts voted for it than against it.
pub proof fn finalized_outcome_counts_votes(s: PalletState, origin: Origin, proposal_id: u32, now: u64)
    requires
        s.wf(),
        s.finalize_step(origin, proposal_id, now).1 is Ok,
    ensures
        s.finalize_step(origin, proposal_id, now).0.proposals[proposal_id as int].outcome == Some(
            vote_count(s.votes, proposal_id, true) > vote_count(s.votes, proposal_id, false),
        ),
{
    let p = s.proposals[proposal_id as int];
    assert(s.proposal_ok(proposal_id as int));
    passes_iff_more_for_than_against(p.for_votes, p.against_votes);
}

/// One call to the pallet, with its origin, arguments and block number.
pub enum Call {
    Create { origin: Origin, title: Seq<u8>, description: Seq<u8>, now: u64 },
    Vote { origin: Origin, proposal_id: u32, is_for: bool, now: u64 },
    Finalize { origin: Origin, proposal_id: u32, now: u64 },
}

/// The state after one call, whether it succeeds or is refused.
pub open spec fn apply_call(s: PalletState, call: Call) -> PalletState {
    match call {
        Call::Create { origin, title, description, now } => s.create_step(origin, title, description, now).0,
        Call::Vote { origin, proposal_id, is_for, now } => s.vote_step(origin, proposal_id, is_for, now).0,
        Call::Finalize { origin, proposal_id, now } => s.finalize_step(origin, proposal_id, now).0,
    }
}

/// The state after a sequence of calls, made in order.
pub open spec fn run_calls(s: PalletState, calls: Seq<Call>) -> PalletState
    decreases calls.len(),
{
    if calls.len() == 0 {
        s
    } else {
        apply_call(run_calls(s, calls.drop_last()), calls.last())
    }
}

/// The votes recorded on proposal `proposal_id` are the same in both states.
pub open spec fn same_votes_on(a: PalletState, b: PalletState, proposal_id: u32) -> bool {
    forall|voter: u64|
        #![trigger a.votes.dom().contains((proposal_id, voter))]
        #![trigger b.votes.dom().contains((proposal_id, voter))]
        a.votes.dom().contains((proposal_id, voter)) == b.votes.dom().contains((proposal_id, voter))
            && (a.votes.dom().contains((proposal_id, voter)) ==> a.votes[(proposal_id, voter)]
            == b.votes[(proposal_id, voter)])
}

/// Every call keeps the state well formed (each proposal's tallies equal its
/// recorded votes), as long as the next proposal ID does not wrap.
pub proof fn every_call_keeps_invariant(s: PalletState, call: Call)
    requires
        s.wf(),
        s.proposals.len() < u32::MAX,
    ensures
        apply_call(s, call).wf(),
        apply_call(s, call).proposals.len() <= s.proposals.len() + 1,
{
    match call {
        Call::Create { origin, title, description, now } => {
            s.lemma_create_keeps_wf(origin, title, description, now);
        },
        Call::Vote { origin, proposal_id, is_for, now } => {
            s.lemma_vote_keeps_wf(origin, proposal_id, is_for, now);
        },
        Call::Finalize { origin, proposal_id, now } => {
            s.lemma_finalize_keeps_wf(origin, proposal_id, now);
        },
    }
}

/// Any sequence of calls keeps the state well formed: the tallies of every
/// proposal stay equal to its recorded votes, provided the sequence cannot
/// take the next proposal ID past `u32::MAX`.
pub proof fn calls_keep_invariant(s: PalletState, calls: Seq<Call>)
    requires
        s.wf(),
        s.proposals.len() + calls.len() <= u32::MAX,
    ensures
        run_calls(s, calls).wf(),
        run_calls(s, calls).proposals.len() <= s.proposals.len() + calls.len(),
    decreases calls.len(),
{
    if calls.len() > 0 {
        calls_keep_invariant(s, calls.drop_last());
        every_call_keeps_invariant(run_calls(s, calls.drop_last()), calls.last());
    }
}

/// One call leaves a decided proposal and the votes on it as they were.
pub proof fn call_keeps_decided_proposal(s: PalletState, call: Call, decided: u32)
    requires
        (decided as int) < s.proposals.len(),
        s.proposals[decided as int].outcome is Some,
    ensures
        (decided as int) < apply_call(s, call).proposals.len(),
        apply_call(s, call).proposals[decided as int] == s.proposals[decided as int],
        same_votes_on(s, apply_call(s, call), decided),
{
    match call {
        Call::Create { origin, title, description, now } => {
            decided_proposal_never_changes(s, decided, origin, title, description, 0, false, now);
        },
        Call::Vote { origin, proposal_id, is_for, now } => {
            decided_proposal_never_changes(s, decided, origin, Seq::empty(), Seq::empty(), proposal_id, is_for, now);
            let t = apply_call(s, call);
            assert forall|voter: u64|
                #![trigger s.votes.dom().contains((decided, voter))]
                #![trigger t.votes.dom().contains((decided, voter))]
                s.votes.dom().contains((decided, voter)) == t.votes.dom().contains((decided, voter))
                    && (s.votes.dom().contains((decided, voter)) ==> s.votes[(decided, voter)]
                    == t.votes[(decided, voter)]) by {
                if proposal_id == decided {
                    assert(t == s);
                }
            }
        },
        Call::Finalize { origin, proposal_id, now } => {
            decided_proposal_never_changes(s, decided, origin, Seq::empty(), Seq::empty(), proposal_id, false, now);
        },
    }
}

/// Once a proposal's outcome is set, no sequence of calls changes the
/// proposal (outcome, tallies, texts, creator, expiry) or the votes on it:
/// the outcome goes from `None` to `Some` once, through finalizing, and then
/// stays.
pub proof fn calls_keep_decided_proposal(s: PalletState, calls: Seq<Call>, decided: u32)
    requires
        (decided as int) < s.proposals.len(),
        s.proposals[decided as int].outcome is Some,
    ensures
        (decided as int) < run_calls(s, calls).proposals.len(),
        run_calls(s, calls).proposals[decided as int] == s.proposals[decided as int],
        same_votes_on(s, run_calls(s, calls), decided),
    decreases calls.len(),
{
    if calls.len() > 0 {
        let before = run_calls(s, calls.drop_last());
        calls_keep_decided_proposal(s, calls.drop_last(), decided);
        call_keeps_decided_proposal(before, calls.last(), decided);
    }
}

/// Creating a proposal succeeds exactly when the origin is a signed account
/// and the title and description are within the maximum length. The new
/// proposal takes the next ID, holds the given texts and creator, expires
/// `proposal_expiration` blocks after `now`, and starts with no votes and no
/// outcome; the proposals before it and the votes are untouched.
pub proof fn create_stores_new_proposal(
    s: PalletState,
    origin: Origin,
    title: Seq<u8>,
    description: Seq<u8>,
    now: u64,
)
    requires
        s.proposals.len() < u32::MAX,
        now + s.config.proposal_expiration <= u64::MAX,
    ensures
        s.create_step(origin, title, description, now).1 is Ok <==> {
            &&& origin is Signed
            &&& title.len() <= s.config.max_length
            &&& description.len() <= s.config.max_length
        },
        s.create_step(origin, title, description, now).1 is Ok ==> {
            let t = s.create_step(origin, title, description, now).0;
            let p = t.proposals[s.proposals.len() as int];
            &&& t.proposals.len() == s.proposals.len() + 1
            &&& forall|j: int| 0 <= j < s.proposals.len() ==> t.proposals[j] == s.proposals[j]
            &&& p.title == title
            &&& p.description == description
            &&& p.creator == origin->Signed_0
            &&& p.expiry == now + s.config.proposal_expiration
            &&& p.for_votes == 0
            &&& p.against_votes == 0
            &&& p.outcome is None
            &&& t.votes == s.votes
            &&& t.config == s.config
        },
{
}

/// Any signed account, the proposal's creator included, may vote once on an
/// open proposal: the vote succeeds exactly when the proposal exists, has no
/// outcome, `now` is before its expiry, the account has not voted on it and
/// the tally the vote adds to is below `u32::MAX`. It then records the vote,
/// raises that tally by one, and leaves the other tally, the proposal's other
/// fields, the other proposals and the other votes as they were.
pub proof fn vote_records_vote(s: PalletState, voter: u64, proposal_id: u32, is_for: bool, now: u64)
    ensures
        s.vote_step(Origin::Signed(voter), proposal_id, is_for, now).1 is Ok <==> {
            &&& (proposal_id as int) < s.proposals.len()
            &&& s.proposals[proposal_id as int].outcome is None
            &&& now < s.proposals[proposal_id as int].expiry
            &&& !s.votes.dom().contains((proposal_id, voter))
            &&& (if is_for {
                s.proposals[proposal_id as int].for_votes < u32::MAX
            } else {
                s.proposals[proposal_id as int].against_votes < u32::MAX
            })
        },
        s.vote_step(Origin::Signed(voter), proposal_id, is_for, now).1 is Ok ==> {
            let t = s.vote_step(Origin::Signed(voter), proposal_id, is_for, now).0;
            let p = s.proposals[proposal_id as int];
            let q = t.proposals[proposal_id as int];
            &&& t.votes.dom().contains((proposal_id, voter))
            &&& t.votes[(proposal_id, voter)] == is_for
            &&& t.votes == s.votes.insert((proposal_id, voter), is_for)
            &&& q.for_votes == p.for_votes + (if is_for { 1int } else { 0int })
            &&& q.against_votes == p.against_votes + (if is_for { 0int } else { 1int })
            &&& q.title == p.title
            &&& q.description == p.description
            &&& q.creator == p.creator
            &&& q.expiry == p.expiry
            &&& q.outcome is None
            &&& t.proposals.len() == s.proposals.len()
            &&& forall|j: int| 0 <= j < s.proposals.len() && j != proposal_id as int ==> t.proposals[j]
                == s.proposals[j]
        },
{
}

/// Any signed account may finalize a proposal at any block at or after its
/// expiry, however late: finalizing succeeds exactly when the proposal
/// exists, has no outcome, `now` is at or past its expiry and the two tallies
/// add up within `u32`. The outcome then becomes "passed" exactly when there
/// are more votes for it than against it; nothing else changes.
pub proof fn finalize_decides_by_majority(s: PalletState, account: u64, proposal_id: u32, now: u64)
    ensures
        s.finalize_step(Origin::Signed(account), proposal_id, now).1 is Ok <==> {
            &&& (proposal_id as int) < s.proposals.len()
            &&& s.proposals[proposal_id as int].outcome is None
            &&& now >= s.proposals[proposal_id as int].expiry
            &&& s.proposals[proposal_id as int].for_votes + s.proposals[proposal_id as int].against_votes
                <= u32::MAX
        },
        s.finalize_step(Origin::Signed(account), proposal_id, now).1 is Ok ==> {
            let t = s.finalize_step(Origin::Signed(account), proposal_id, now).0;
            let p = s.proposals[proposal_id as int];
            let q = t.proposals[proposal_id as int];
            &&& q.outcome == Some(p.for_votes > p.against_votes)
            &&& q.for_votes == p.for_votes
            &&& q.against_votes == p.against_votes
            &&& q.title == p.title
            &&& q.description == p.description
            &&& q.creator == p.creator
            &&& q.expiry == p.expiry
            &&& t.votes == s.votes
            &&& t.proposals.len() == s.proposals.len()
            &&& forall|j: int| 0 <= j < s.proposals.len() && j != proposal_id as int ==> t.proposals[j]
                == s.proposals[j]
        },
{
    passes_iff_more_for_than_against(
        s.proposals[proposal_id as int].for_votes,
        s.proposals[proposal_id as int].against_votes,
    );
}

} // verus!
