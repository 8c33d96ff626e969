//! Concluding an election: turning the voting subsystem's winner list into
//! a wholesale replacement of the seated council.
//!
//! A winner with no matching candidacy record is skipped defensively: it
//! takes no seat and does not fail the election. The outgoing council is
//! paid whatever the budget still owes it, every outgoing stake is
//! unlocked before any incoming stake is locked, and any residue still
//! unpaid is discarded with the outgoing seats.

use vstd::prelude::*;

use crate::calculations::{sat_add, sat_add64};
use crate::ledger::Ledger;
use crate::mutations::release_candidacy_stake;
use crate::rewards::{
    pay_elected_member_rewards, spec_apply_reward_deposits, spec_pay_pass, spec_reward_events,
};
use crate::state::CouncilState;
use crate::types::{
    AccountId, Balance, BlockNumber, Candidate, CouncilMember, CouncilStage, CouncilStageIdle,
    CouncilStageUpdate, Event, MemberId, OptionResult,
};

verus! {

/// The seat record a winning candidacy turns into: accounts and stake
/// carry over, payments count from `now`, nothing is owed yet.
pub open spec fn spec_new_member(
    candidate: Candidate,
    membership_id: MemberId,
    now: BlockNumber,
) -> CouncilMember {
    CouncilMember {
        staking_account_id: candidate.staking_account_id,
        reward_account_id: candidate.reward_account_id,
        membership_id: membership_id,
        stake: candidate.stake,
        last_payment_block: now,
        unpaid_reward: 0u64,
    }
}

/// What walking the winner list does: the seats built, and the candidacy
/// records and candidacy locks left over once each winning candidacy has
/// been cleared. A winner without a record contributes nothing.
pub struct WinnerCollection {
    pub members: Seq<CouncilMember>,
    pub candidates: Map<MemberId, Candidate>,
    pub candidacy_locks: Map<AccountId, Balance>,
}

/// Walk the winner list in order, clearing each winning candidacy (record
/// and lock) and turning it into a seat.
pub open spec fn spec_collect_winners(
    winners: Seq<OptionResult>,
    candidates: Map<MemberId, Candidate>,
    candidacy_locks: Map<AccountId, Balance>,
    now: BlockNumber,
) -> WinnerCollection
    decreases winners.len(),
{
    if winners.len() == 0 {
        WinnerCollection { members: Seq::empty(), candidates, candidacy_locks }
    } else {
        let membership_id = winners[0].option_id;
        if candidates.contains_key(membership_id) {
            let candidate = candidates[membership_id];
            let rest = spec_collect_winners(
                winners.drop_first(),
                candidates.remove(membership_id),
                candidacy_locks.remove(candidate.staking_account_id),
                now,
            );
            WinnerCollection {
                members: seq![spec_new_member(candidate, membership_id, now)] + rest.members,
                candidates: rest.candidates,
                candidacy_locks: rest.candidacy_locks,
            }
        } else {
            spec_collect_winners(winners.drop_first(), candidates, candidacy_locks, now)
        }
    }
}

/// The seat is one a record of the candidacy map gives rise to.
pub open spec fn member_drawn_from(
    candidates: Map<MemberId, Candidate>,
    member: CouncilMember,
    now: BlockNumber,
) -> bool {
    exists|mid: MemberId|
        candidates.contains_key(mid) && member == spec_new_member(candidates[mid], mid, now)
}

/// Distinct records in a candidacy map stake from distinct accounts.
pub open spec fn candidates_accounts_distinct_in(candidates: Map<MemberId, Candidate>) -> bool {
    forall|m1: MemberId, m2: MemberId|
        candidates.contains_key(m1) && candidates.contains_key(m2) && m1 != m2
            ==> candidates[m1].staking_account_id != candidates[m2].staking_account_id
}

/// Every seat built from the winner list comes from one of the candidacy
/// records, the records left over are a sub-map of the original ones, and
/// when records stake from distinct accounts, so do the seats.
pub proof fn lemma_collect_winners_members(
    winners: Seq<OptionResult>,
    candidates: Map<MemberId, Candidate>,
    candidacy_locks: Map<AccountId, Balance>,
    now: BlockNumber,
)
    requires
        candidates_accounts_distinct_in(candidates),
    ensures
        forall|i: int|
            0 <= i < spec_collect_winners(winners, candidates, candidacy_locks, now).members.len()
                ==> member_drawn_from(
                candidates,
                #[trigger] spec_collect_winners(
                    winners,
                    candidates,
                    candidacy_locks,
                    now,
                ).members[i],
                now,
            ),
        forall|i: int, j: int|
            0 <= i < spec_collect_winners(winners, candidates, candidacy_locks, now).members.len()
                && 0 <= j < spec_collect_winners(
                winners,
                candidates,
                candidacy_locks,
                now,
            ).members.len() && i != j ==> spec_collect_winners(
                winners,
                candidates,
                candidacy_locks,
                now,
            ).members[i].staking_account_id != spec_collect_winners(
                winners,
                candidates,
                candidacy_locks,
                now,
            ).members[j].staking_account_id,
        forall|m: MemberId|
            #[trigger] spec_collect_winners(
                winners,
                candidates,
                candidacy_locks,
                now,
            ).candidates.contains_key(m) ==> {
                &&& candidates.contains_key(m)
                &&& spec_collect_winners(winners, candidates, candidacy_locks, now).candidates[m]
                    == candidates[m]
            },
    decreases winners.len(),
{
    if winners.len() > 0 {
        let membership_id = winners[0].option_id;
        let collected = spec_collect_winners(winners, candidates, candidacy_locks, now);
        if candidates.contains_key(membership_id) {
            let candidate = candidates[membership_id];
            let rest = spec_collect_winners(
                winners.drop_first(),
                candidates.remove(membership_id),
                candidacy_locks.remove(candidate.staking_account_id),
                now,
            );
            lemma_collect_winners_members(
                winners.drop_first(),
                candidates.remove(membership_id),
                candidacy_locks.remove(candidate.staking_account_id),
                now,
            );
            assert forall|i: int|
                0 <= i < collected.members.len() implies member_drawn_from(
                candidates,
                #[trigger] collected.members[i],
                now,
            ) by {
                if i == 0 {
                    assert(candidates.contains_key(membership_id) && collected.members[0]
                        == spec_new_member(candidates[membership_id], membership_id, now));
                } else {
                    assert(collected.members[i] == rest.members[i - 1]);
                    assert(member_drawn_from(
                        candidates.remove(membership_id),
                        rest.members[i - 1],
                        now,
                    ));
                    let mid = choose|mid: MemberId|
                        candidates.remove(membership_id).contains_key(mid) && rest.members[i - 1]
                            == spec_new_member(candidates.remove(membership_id)[mid], mid, now);
                    assert(candidates.contains_key(mid) && collected.members[i]
                        == spec_new_member(candidates[mid], mid, now));
                }
            }
            assert forall|i: int, j: int|
                0 <= i < collected.members.len() && 0 <= j < collected.members.len() && i != j
                    implies collected.members[i].staking_account_id
                    != collected.members[j].staking_account_id by {
                if i != 0 && j != 0 {
                    assert(collected.members[i] == rest.members[i - 1]);
                    assert(collected.members[j] == rest.members[j - 1]);
                } else {
                    let k = if i == 0 {
                        j
                    } else {
                        i
                    };
                    assert(collected.members[k] == rest.members[k - 1]);
                    assert(member_drawn_from(
                        candidates.remove(membership_id),
                        rest.members[k - 1],
                        now,
                    ));
                    let mid = choose|mid: MemberId|
                        candidates.remove(membership_id).contains_key(mid) && rest.members[k - 1]
                            == spec_new_member(candidates.remove(membership_id)[mid], mid, now);
                    assert(mid != membership_id);
                    assert(candidates[mid].staking_account_id
                        != candidates[membership_id].staking_account_id);
                }
            }
            assert forall|m: MemberId| #[trigger] collected.candidates.contains_key(m) implies {
                &&& candidates.contains_key(m)
                &&& collected.candidates[m] == candidates[m]
            } by {
                assert(rest.candidates.contains_key(m));
                assert(candidates.remove(membership_id).contains_key(m));
            }
        } else {
            lemma_collect_winners_members(winners.drop_first(), candidates, candidacy_locks, now);
            assert(collected == spec_collect_winners(
                winners.drop_first(),
                candidates,
                candidacy_locks,
                now,
            ));
        }
    } else {
        assert(spec_collect_winners(winners, candidates, candidacy_locks, now).members
            =~= Seq::<CouncilMember>::empty());
    }
}

/// The councilor locks a seat sequence induces: each seat's staking
/// account locked at its stake, in seat order.
pub open spec fn spec_councilor_locks_of(members: Seq<CouncilMember>) -> Map<AccountId, Balance>
    decreases members.len(),
{
    if members.len() == 0 {
        Map::empty()
    } else {
        spec_councilor_locks_of(members.drop_last()).insert(
            members.last().staking_account_id,
            members.last().stake,
        )
    }
}

/// For seats staking from distinct accounts, the induced lock map holds
/// exactly one entry per seat, at the seat's stake.
pub proof fn lemma_councilor_locks_of_members(members: Seq<CouncilMember>)
    requires
        forall|i: int, j: int|
            0 <= i < members.len() && 0 <= j < members.len() && i != j
                ==> members[i].staking_account_id != members[j].staking_account_id,
    ensures
        ({
            let locks = spec_councilor_locks_of(members);
            &&& forall|i: int| 0 <= i < members.len() ==> {
                &&& locks.contains_key(#[trigger] members[i].staking_account_id)
                &&& locks[members[i].staking_account_id] == members[i].stake
            }
            &&& forall|a: AccountId| #[trigger] locks.contains_key(a) ==> exists|i: int|
                0 <= i < members.len() && members[i].staking_account_id == a
        }),
    decreases members.len(),
{
    if members.len() > 0 {
        lemma_councilor_locks_of_members(members.drop_last());
        let locks = spec_councilor_locks_of(members);
        let prior = spec_councilor_locks_of(members.drop_last());
        assert forall|i: int| 0 <= i < members.len() implies {
            &&& locks.contains_key(#[trigger] members[i].staking_account_id)
            &&& locks[members[i].staking_account_id] == members[i].stake
        } by {
            if i < members.len() - 1 {
                assert(members.drop_last()[i] == members[i]);
                assert(members[i].staking_account_id != members.last().staking_account_id);
            }
        }
        assert forall|a: AccountId| #[trigger] locks.contains_key(a) implies exists|i: int|
            0 <= i < members.len() && members[i].staking_account_id == a by {
            if a != members.last().staking_account_id {
                let i = choose|i: int|
                    0 <= i < members.drop_last().len()
                        && members.drop_last()[i].staking_account_id == a;
                assert(members[i].staking_account_id == a);
            } else {
                assert(members[members.len() - 1].staking_account_id == a);
            }
        }
    }
}

/// The councilor locks left after removing, in order, each given seat's
/// staking account.
pub open spec fn spec_unlock_accounts(
    locks: Map<AccountId, Balance>,
    members: Seq<CouncilMember>,
) -> Map<AccountId, Balance>
    decreases members.len(),
{
    if members.len() == 0 {
        locks
    } else {
        spec_unlock_accounts(locks, members.drop_last()).remove(
            members.last().staking_account_id,
        )
    }
}

/// Removing every seat's staking account leaves exactly the locks whose
/// account no seat stakes from.
pub proof fn lemma_unlock_accounts_char(locks: Map<AccountId, Balance>, members: Seq<CouncilMember>)
    ensures
        forall|a: AccountId| #[trigger] spec_unlock_accounts(locks, members).contains_key(a)
            <==> (locks.contains_key(a) && !exists|j: int|
                0 <= j < members.len() && members[j].staking_account_id == a),
    decreases members.len(),
{
    if members.len() > 0 {
        lemma_unlock_accounts_char(locks, members.drop_last());
        let result = spec_unlock_accounts(locks, members);
        let prior = spec_unlock_accounts(locks, members.drop_last());
        assert forall|a: AccountId| #[trigger] result.contains_key(a) implies (
            locks.contains_key(a) && !exists|j: int|
                0 <= j < members.len() && members[j].staking_account_id == a
        ) by {
            assert(prior.contains_key(a));
            assert forall|j: int| 0 <= j < members.len() implies members[j].staking_account_id
                != a by {
                if j < members.len() - 1 {
                    assert(members.drop_last()[j] == members[j]);
                }
            }
        }
        assert forall|a: AccountId|
            locks.contains_key(a) && !exists|j: int|
                0 <= j < members.len() && members[j].staking_account_id == a implies #[trigger]
            result.contains_key(a) by {
            assert forall|j: int|
                0 <= j < members.drop_last().len() implies members.drop_last()[
                    j
                ].staking_account_id != a by {
                assert(members.drop_last()[j] == members[j]);
            }
            assert(prior.contains_key(a));
            assert(members[members.len() - 1].staking_account_id != a);
        }
    }
}

/// Seat the given council: move to the idle stage, pay the outgoing
/// council whatever the budget still owes it (any residue is discarded),
/// unlock every outgoing stake, install the new seats and lock every
/// incoming stake. Returns the payment events of the closing payout pass.
pub fn elect_new_council(
    st: &mut CouncilState,
    lg: &mut Ledger,
    elected_members: Vec<CouncilMember>,
    now: BlockNumber,
) -> (events: Vec<Event>)
    requires
        old(st).locks_consistent(*old(lg)),
        forall|i: int, j: int|
            0 <= i < elected_members@.len() && 0 <= j < elected_members@.len() && i != j
                ==> elected_members@[i].staking_account_id
                != elected_members@[j].staking_account_id,
    ensures
        ({
            let pass = spec_pay_pass(
                old(st).council_members@,
                old(st).budget,
                old(st).councilor_reward,
                now,
            );
            &&& final(st).council_members@ == elected_members@
            &&& *final(st) == (CouncilState {
                council_members: final(st).council_members,
                stage: CouncilStageUpdate {
                    stage: CouncilStage::Idle(
                        CouncilStageIdle {
                            ends_at: sat_add64(now, old(st).params.idle_period_duration),
                        },
                    ),
                    changed_at: now,
                },
                budget: pass.balance,
                next_reward_payments: sat_add64(
                    now,
                    old(st).params.elected_member_reward_period,
                ),
                ..*old(st)
            })
            &&& final(lg).balances@ == spec_apply_reward_deposits(
                old(lg).balances@,
                old(st).council_members@,
                pass.payments,
            )
            &&& final(lg).candidacy_locks@ == old(lg).candidacy_locks@
            &&& final(lg).councilor_locks@ == spec_councilor_locks_of(elected_members@)
            &&& events@ == spec_reward_events(old(st).council_members@, pass.payments)
            &&& final(st).locks_consistent(*final(lg))
        }),
{
    st.stage = CouncilStageUpdate {
        stage: CouncilStage::Idle(
            CouncilStageIdle { ends_at: sat_add(now, st.params.idle_period_duration) },
        ),
        changed_at: now,
    };
    let events = pay_elected_member_rewards(st, lg, now);
    let ghost outgoing = st.council_members@;
    let ghost locks_mid = lg.councilor_locks@;
    let ghost lg_mid = *lg;
    let ghost st_mid = *st;
    let n = st.council_members.len();
    let mut i: usize = 0;
    proof {
        assert(outgoing.take(0) =~= Seq::<CouncilMember>::empty());
    }
    while i < n
        invariant
            i <= n,
            n == outgoing.len(),
            *st == st_mid,
            outgoing == st_mid.council_members@,
            lg.balances@ == lg_mid.balances@,
            lg.candidacy_locks@ == lg_mid.candidacy_locks@,
            lg.councilor_locks@ == spec_unlock_accounts(locks_mid, outgoing.take(i as int)),
            locks_mid == lg_mid.councilor_locks@,
        decreases n - i,
    {
        let account = st.council_members[i].staking_account_id;
        lg.unlock_councilor(account);
        proof {
            assert(outgoing.take(i as int + 1).drop_last() =~= outgoing.take(i as int));
            assert(outgoing.take(i as int + 1).last() == outgoing[i as int]);
        }
        i = i + 1;
    }
    proof {
        assert(outgoing.take(n as int) =~= outgoing);
        lemma_unlock_accounts_char(locks_mid, outgoing);
        assert(st_mid.locks_consistent(lg_mid));
        assert forall|a: AccountId| !(#[trigger] lg.councilor_locks@.contains_key(a)) by {
            if lg.councilor_locks@.contains_key(a) {
                let j = choose|j: int|
                    0 <= j < st_mid.council_members@.len()
                        && st_mid.council_members@[j].staking_account_id == a;
                assert(outgoing[j].staking_account_id == a);
            }
        }
        assert(lg.councilor_locks@ =~= Map::<AccountId, Balance>::empty());
    }
    st.council_members = elected_members;
    let ghost locks_empty = lg.councilor_locks@;
    let ghost lg_mid2 = *lg;
    let ghost st_mid2 = *st;
    let m = st.council_members.len();
    let mut j: usize = 0;
    proof {
        assert(elected_members@.take(0) =~= Seq::<CouncilMember>::empty());
        assert(spec_councilor_locks_of(elected_members@.take(0)) =~= Map::<
            AccountId,
            Balance,
        >::empty());
    }
    while j < m
        invariant
            j <= m,
            m == elected_members@.len(),
            *st == st_mid2,
            elected_members@ == st_mid2.council_members@,
            lg.balances@ == lg_mid2.balances@,
            lg.candidacy_locks@ == lg_mid2.candidacy_locks@,
            lg.councilor_locks@ == spec_councilor_locks_of(elected_members@.take(j as int)),
        decreases m - j,
    {
        let member = st.council_members[j];
        lg.lock_councilor(member.staking_account_id, member.stake);
        proof {
            assert(elected_members@.take(j as int + 1).drop_last() =~= elected_members@.take(
                j as int,
            ));
            assert(elected_members@.take(j as int + 1).last() == elected_members@[j as int]);
        }
        j = j + 1;
    }
    proof {
        assert(elected_members@.take(m as int) =~= elected_members@);
        lemma_councilor_locks_of_members(elected_members@);
        assert(st.candidates@ == st_mid.candidates@);
        assert(st.locks_consistent(*lg)) by {
            assert forall|mid: MemberId| st.candidates@.contains_key(mid) implies {
                &&& lg.candidacy_locks@.contains_key(
                    #[trigger] st.candidates@[mid].staking_account_id,
                )
                &&& lg.candidacy_locks@[st.candidates@[mid].staking_account_id]
                    == st.candidates@[mid].stake
            } by {
                assert(st_mid.candidates@.contains_key(mid));
            }
            assert forall|a: AccountId| #[trigger] lg.candidacy_locks@.contains_key(a) implies
                exists|mid: MemberId|
                    st.candidates@.contains_key(mid) && st.candidates@[mid].staking_account_id
                        == a by {
                let mid = choose|mid: MemberId|
                    st_mid.candidates@.contains_key(mid)
                        && st_mid.candidates@[mid].staking_account_id == a;
                assert(st.candidates@.contains_key(mid) && st.candidates@[mid].staking_account_id
                    == a);
            }
        }
    }
    events
}

/// What concluding an election hands back to the host: the events, and,
/// when a council was seated, the new member list for the host's
/// council-elected hook.
pub struct ElectionOutcome {
    pub events: Vec<Event>,
    pub elected: Option<Vec<CouncilMember>>,
}

/// Process the winner list the external voting subsystem reports when it
/// concludes. A list of the wrong length is a failed election: the
/// announcing stage restarts (bumping the cycle) and the seated council is
/// left untouched. Otherwise every winning candidacy is cleared, the
/// outgoing council is paid off, and the winners are seated wholesale; a
/// winner without a candidacy record is skipped and takes no seat.
pub fn recieve_referendum_results(
    st: &mut CouncilState,
    lg: &mut Ledger,
    winners: &Vec<OptionResult>,
    now: BlockNumber,
) -> (r: ElectionOutcome)
    requires
        old(st).locks_consistent(*old(lg)),
    ensures
        winners@.len() != old(st).params.council_size as int ==> {
            &&& *final(st) == crate::council::spec_restart_announcing(*old(st), now)
            &&& *final(lg) == *old(lg)
            &&& r.elected is None
            &&& r.events@ == seq![
                Event::NewCouncilNotElected(
                    sat_add64(now, old(st).params.announcing_period_duration),
                ),
            ]
        },
        winners@.len() == old(st).params.council_size as int ==> {
            let collected = spec_collect_winners(
                winners@,
                old(st).candidates@,
                old(lg).candidacy_locks@,
                now,
            );
            let pass = spec_pay_pass(
                old(st).council_members@,
                old(st).budget,
                old(st).councilor_reward,
                now,
            );
            &&& final(st).candidates@ == collected.candidates
            &&& final(st).council_members@ == collected.members
            &&& *final(st) == (CouncilState {
                candidates: final(st).candidates,
                council_members: final(st).council_members,
                stage: CouncilStageUpdate {
                    stage: CouncilStage::Idle(
                        CouncilStageIdle {
                            ends_at: sat_add64(now, old(st).params.idle_period_duration),
                        },
                    ),
                    changed_at: now,
                },
                budget: pass.balance,
                next_reward_payments: sat_add64(
                    now,
                    old(st).params.elected_member_reward_period,
                ),
                ..*old(st)
            })
            &&& final(lg).candidacy_locks@ == collected.candidacy_locks
            &&& final(lg).councilor_locks@ == spec_councilor_locks_of(collected.members)
            &&& final(lg).balances@ == spec_apply_reward_deposits(
                old(lg).balances@,
                old(st).council_members@,
                pass.payments,
            )
            &&& r.elected matches Some(v) && v@ == collected.members
            &&& r.events@.len() == old(st).council_members@.len() + 1
            &&& r.events@.take(old(st).council_members@.len() as int) == spec_reward_events(
                old(st).council_members@,
                pass.payments,
            )
            &&& (r.events@.last() matches Event::NewCouncilElected(ids, ends_at) && ids@
                == Seq::new(collected.members.len(), |k: int| collected.members[k].membership_id)
                && ends_at == sat_add64(now, old(st).params.idle_period_duration))
        },
        final(st).locks_consistent(*final(lg)),
        old(st).stage.stage is Election ==> crate::types::stage_transition_ok(
            old(st).stage.stage,
            final(st).stage.stage,
        ),
{
    let council_size = st.params.council_size;
    if winners.len() != council_size as usize {
        let ends_at = crate::mutations::start_announcing_period(st, now);
        let mut events: Vec<Event> = Vec::new();
        events.push(Event::NewCouncilNotElected(ends_at));
        proof {
            CouncilState::lemma_locks_same_records(*old(st), *st, *old(lg));
            assert(events@ =~= seq![Event::NewCouncilNotElected(ends_at)]);
        }
        return ElectionOutcome { events, elected: None };
    }
    let ghost collected = spec_collect_winners(
        winners@,
        st.candidates@,
        lg.candidacy_locks@,
        now,
    );
    proof {
        assert(candidates_accounts_distinct_in(old(st).candidates@));
        lemma_collect_winners_members(winners@, old(st).candidates@, old(lg).candidacy_locks@, now);
        assert(winners@.skip(0) =~= winners@);
    }
    let mut elected: Vec<CouncilMember> = Vec::new();
    let n = winners.len();
    let mut i: usize = 0;
    proof {
        assert(Seq::<CouncilMember>::empty() + collected.members =~= collected.members);
    }
    while i < n
        invariant
            i <= n,
            n == winners@.len(),
            st.locks_consistent(*lg),
            *st == (CouncilState { candidates: st.candidates, ..*old(st) }),
            lg.balances@ == old(lg).balances@,
            lg.councilor_locks@ == old(lg).councilor_locks@,
            collected == spec_collect_winners(
                winners@,
                old(st).candidates@,
                old(lg).candidacy_locks@,
                now,
            ),
            ({
                let suffix = spec_collect_winners(
                    winners@.skip(i as int),
                    st.candidates@,
                    lg.candidacy_locks@,
                    now,
                );
                &&& collected.members == elected@ + suffix.members
                &&& collected.candidates == suffix.candidates
                &&& collected.candidacy_locks == suffix.candidacy_locks
            }),
        decreases n - i,
    {
        let winner = winners[i];
        proof {
            assert(winners@.skip(i as int)[0] == winners@[i as int]);
            assert(winners@.skip(i as int).drop_first() =~= winners@.skip(i as int + 1));
        }
        match st.candidate(winner.option_id) {
            Some(candidate) => {
                release_candidacy_stake(st, lg, winner.option_id, candidate.staking_account_id);
                let member = CouncilMember::from_candidate(&candidate, winner.option_id, now);
                proof {
                    assert(member == spec_new_member(candidate, winner.option_id, now));
                }
                let ghost elected_prev = elected@;
                elected.push(member);
                proof {
                    let suffix = spec_collect_winners(
                        winners@.skip(i as int + 1),
                        st.candidates@,
                        lg.candidacy_locks@,
                        now,
                    );
                    assert(elected_prev + (seq![member] + suffix.members) =~= elected@
                        + suffix.members);
                }
            },
            None => {},
        }
        i = i + 1;
    }
    proof {
        assert(winners@.skip(n as int) =~= Seq::<OptionResult>::empty());
        assert(elected@ + Seq::<CouncilMember>::empty() =~= elected@);
        assert(elected@ == collected.members);
    }
    let mut ids: Vec<MemberId> = Vec::new();
    let mut elected_copy: Vec<CouncilMember> = Vec::new();
    let m = elected.len();
    let mut k: usize = 0;
    while k < m
        invariant
            k <= m,
            m == elected@.len(),
            ids@.len() == k,
            elected_copy@ == elected@.take(k as int),
            forall|j: int| 0 <= j < k ==> ids@[j] == elected@[j].membership_id,
        decreases m - k,
    {
        let member = elected[k];
        ids.push(member.membership_id);
        elected_copy.push(member);
        proof {
            assert(elected@.take(k as int + 1) =~= elected@.take(k as int).push(
                elected@[k as int],
            ));
        }
        k = k + 1;
    }
    proof {
        assert(elected@.take(m as int) =~= elected@);
    }
    let ends_at = sat_add(now, st.params.idle_period_duration);
    let mut events = elect_new_council(st, lg, elected, now);
    let ghost pass_events_len = events@.len();
    events.push(Event::NewCouncilElected(ids, ends_at));
    proof {
        assert(events@.take(pass_events_len as int) =~= events@.drop_last());
        assert(ids@ =~= Seq::new(
            collected.members.len(),
            |k: int| collected.members[k].membership_id,
        ));
    }
    ElectionOutcome { events, elected: Some(elected_copy) }
}

} // verus!
