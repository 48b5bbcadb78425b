use vstd::prelude::*;

use crate::errors::VanityError;
use crate::predicate::{ends_with_suffix, is_suffix_of};
use crate::trial::{all_base58, generate_trial, is_base58_byte, TrialKey};

verus! {

/// One worker of the pool, as the coordinator sees it: its local trial
/// count, whether it is still looping, and whether it is the one that
/// delivered into the single-slot result channel.
#[derive(Clone, Copy, Debug, PartialEq, Eq, Structural)]
pub struct WorkerState {
    pub attempts: u64,
    pub running: bool,
    pub delivered: bool,
}

/// The pool's total trial count: the sum of every worker's local count.
pub open spec fn sum_attempts(s: Seq<WorkerState>) -> int
    decreases s.len(),
{
    if s.len() == 0 {
        0
    } else {
        sum_attempts(s.drop_last()) + s.last().attempts
    }
}

/// How many workers have delivered a result.
pub open spec fn delivered_count(s: Seq<WorkerState>) -> int
    decreases s.len(),
{
    if s.len() == 0 {
        0
    } else {
        delivered_count(s.drop_last()) + (if s.last().delivered {
            1int
        } else {
            0int
        })
    }
}

pub open spec fn all_running(s: Seq<WorkerState>) -> bool {
    forall|i: int| 0 <= i < s.len() ==> (#[trigger] s[i]).running
}

proof fn lemma_counts_push(s: Seq<WorkerState>, w: WorkerState)
    ensures
        sum_attempts(s.push(w)) == sum_attempts(s) + w.attempts,
        delivered_count(s.push(w)) == delivered_count(s) + (if w.delivered {
            1int
        } else {
            0int
        }),
{
    assert(s.push(w).drop_last() =~= s);
    assert(s.push(w).last() == w);
}

proof fn lemma_counts_update(s: Seq<WorkerState>, i: int, w: WorkerState)
    requires
        0 <= i < s.len(),
    ensures
        sum_attempts(s.update(i, w)) == sum_attempts(s) - s[i].attempts + w.attempts,
        delivered_count(s.update(i, w)) == delivered_count(s) - (if s[i].delivered {
            1int
        } else {
            0int
        }) + (if w.delivered {
            1int
        } else {
            0int
        }),
    decreases s.len(),
{
    if i == s.len() - 1 {
        assert(s.update(i, w).drop_last() =~= s.drop_last());
        assert(s.update(i, w).last() == w);
    } else {
        assert(s.update(i, w).drop_last() =~= s.drop_last().update(i, w));
        assert(s.update(i, w).last() == s.last());
        lemma_counts_update(s.drop_last(), i, w);
    }
}

proof fn lemma_counts_nonneg(s: Seq<WorkerState>)
    ensures
        sum_attempts(s) >= 0,
        delivered_count(s) >= 0,
    decreases s.len(),
{
    if s.len() > 0 {
        lemma_counts_nonneg(s.drop_last());
    }
}

proof fn lemma_attempts_le_sum(s: Seq<WorkerState>, i: int)
    requires
        0 <= i < s.len(),
    ensures
        s[i].attempts <= sum_attempts(s),
        (if s[i].delivered {
            1int
        } else {
            0int
        }) <= delivered_count(s),
    decreases s.len(),
{
    if i == s.len() - 1 {
        lemma_counts_nonneg(s.drop_last());
    } else {
        lemma_attempts_le_sum(s.drop_last(), i);
    }
}

/// The state of one single-match search: the shared Found Flag, the shared
/// Attempt Counter, the single-slot result channel, and every worker's
/// state. One `step` is one iteration of one worker's loop; which worker
/// steps when is the scheduler's business, and no property below depends on
/// that order.
pub struct Race {
    pub suffix: Vec<u8>,
    pub found: bool,
    pub counter: u64,
    pub slot: Option<TrialKey>,
    pub workers: Vec<WorkerState>,
}

impl Race {
    /// The protocol invariant, preserved by every step under any schedule:
    /// the shared counter is exactly the sum of the local counts; at most
    /// one worker ever delivers; the slot is filled exactly by that one
    /// delivery; the flag is set exactly when the slot is filled; and a
    /// filled slot holds a well-formed keypair whose address ends with the
    /// suffix.
    pub open spec fn wf(self) -> bool {
        &&& self.counter as int == sum_attempts(self.workers@)
        &&& delivered_count(self.workers@) <= 1
        &&& (self.slot is Some <==> delivered_count(self.workers@) == 1)
        &&& (self.found <==> self.slot is Some)
        &&& (self.slot matches Some(t) ==> t.wf() && is_suffix_of(self.suffix@, t.address@))
        &&& (self.slot is Some ==> self.counter >= 1)
    }

    /// A fresh race: flag clear, counter zero, empty slot, every worker
    /// running with zero local attempts.
    pub fn new(suffix: &Vec<u8>, num_workers: usize) -> (race: Race)
        ensures
            race.wf(),
            race.workers@.len() == num_workers,
            race.suffix@ == suffix@,
            !race.found,
            race.counter == 0,
            all_running(race.workers@),
    {
        let fresh = WorkerState { attempts: 0, running: true, delivered: false };
        let mut workers: Vec<WorkerState> = Vec::new();
        let mut i: usize = 0;
        while i < num_workers
            invariant
                i <= num_workers,
                workers@.len() == i,
                sum_attempts(workers@) == 0,
                delivered_count(workers@) == 0,
                all_running(workers@),
                fresh == (WorkerState { attempts: 0, running: true, delivered: false }),
            decreases num_workers - i,
        {
            let ghost pre = workers@;
            workers.push(fresh);
            proof {
                lemma_counts_push(pre, fresh);
            }
            i += 1;
        }
        let cloned_suffix = suffix.clone();
        proof {
            assert(cloned_suffix@ =~= suffix@);
        }
        Race { suffix: cloned_suffix, found: false, counter: 0, slot: None, workers }
    }

    /// One iteration of worker `i`'s loop: read the flag and exit if it is
    /// set; otherwise generate one trial keypair, bump the shared counter
    /// and the local count, and on a match set the flag, deliver into the
    /// slot if it is still free (a second deliverer would drop its result
    /// harmlessly), and exit.
    pub fn step(&mut self, i: usize)
        requires
            old(self).wf(),
            i < old(self).workers@.len(),
            old(self).workers@[i as int].running,
            !old(self).found ==> old(self).counter < u64::MAX,
        ensures
            final(self).wf(),
            final(self).suffix@ == old(self).suffix@,
            final(self).workers@.len() == old(self).workers@.len(),
            forall|j: int|
                0 <= j < old(self).workers@.len() && j != i ==> final(self).workers@[j] == old(
                    self,
                ).workers@[j],
            old(self).found ==> final(self).counter == old(self).counter && final(self).slot
                == old(self).slot && final(self).found && !final(self).workers@[i as int].running,
            !old(self).found ==> final(self).counter == old(self).counter + 1,
            !old(self).found && !final(self).found ==> final(self).workers@[i as int].running,
            // The empty suffix matches every derived address, so a trial
            // taken before the flag is set always wins.
            !old(self).found && old(self).suffix@.len() == 0 ==> final(self).found,
            // A suffix holding a byte outside the base58 alphabet can never
            // match base58 text, so no trial ever sets the flag.
            !old(self).found && !all_base58(old(self).suffix@) ==> !final(self).found,
    {
        let ghost pre = self.workers@;
        if self.found {
            let mut w = self.workers[i];
            w.running = false;
            self.workers[i] = w;
            proof {
                lemma_counts_update(pre, i as int, w);
            }
            return ;
        }
        let t = generate_trial();
        let matched = ends_with_suffix(&t.address, &self.suffix);
        proof {
            let s = self.suffix@;
            let a = t.address@;
            if s.len() == 0 {
                assert(a.subrange(a.len() as int, a.len() as int) =~= s);
                assert(matched);
            }
            if matched && !all_base58(s) {
                assert forall|k: int| 0 <= k < s.len() implies is_base58_byte(s[k]) by {
                    assert(a.subrange(a.len() - s.len(), a.len() as int)[k] == a[a.len() - s.len()
                        + k]);
                    assert(is_base58_byte(a[a.len() - s.len() + k]));
                }
                assert(false);
            }
        }
        self.counter = self.counter + 1;
        let mut w = self.workers[i];
        proof {
            lemma_attempts_le_sum(pre, i as int);
        }
        w.attempts = w.attempts + 1;
        if matched {
            self.found = true;
            w.running = false;
            if self.slot.is_none() {
                w.delivered = true;
                self.slot = Some(t);
            }
        }
        self.workers[i] = w;
        proof {
            lemma_counts_update(pre, i as int, w);
        }
    }
}

/// Law: in any well-formed race state — so after any number of steps under
/// any schedule — at most one worker across the pool has delivered into the
/// result channel.
pub proof fn lemma_at_most_one_delivery(race: Race)
    requires
        race.wf(),
    ensures
        delivered_count(race.workers@) <= 1,
{
}

/// What a finished single-match search reports: the winning keypair, the
/// exact total of trials, and every worker's final state. The total equals
/// the sum of the workers' local counts, exactly one worker delivered, and
/// at least one trial was performed.
pub struct SearchReport {
    pub winner: TrialKey,
    pub total_attempts: u64,
    pub workers: Vec<WorkerState>,
}

pub open spec fn report_valid(rep: SearchReport, suffix: Seq<u8>, num_workers: int) -> bool {
    &&& rep.winner.wf()
    &&& is_suffix_of(suffix, rep.winner.address@)
    &&& rep.workers@.len() == num_workers
    &&& rep.total_attempts as int == sum_attempts(rep.workers@)
    &&& delivered_count(rep.workers@) == 1
    &&& rep.total_attempts >= 1
    // Every worker has been joined: none is still running at return.
    &&& forall|j: int| 0 <= j < rep.workers@.len() ==> !(#[trigger] rep.workers@[j]).running
}

fn any_running(workers: &Vec<WorkerState>) -> (r: bool)
    ensures
        r == exists|j: int| 0 <= j < workers@.len() && (#[trigger] workers@[j]).running,
{
    let mut i: usize = 0;
    while i < workers.len()
        invariant
            i <= workers@.len(),
            forall|j: int| 0 <= j < i ==> !(#[trigger] workers@[j]).running,
        decreases workers@.len() - i,
    {
        if workers[i].running {
            return true;
        }
        i += 1;
    }
    false
}

/// A single-match search with a trial budget: round-robin over the pool,
/// each running worker taking one trial per round, until the winner's flag
/// has been observed by every worker or the budget is spent without a
/// match. On success the report carries the one delivered keypair, whose
/// address ends with the suffix; when the pool is wound down without a
/// delivery the search is exhausted. A budget of zero performs no trial at
/// all.
pub fn find_address_with_budget(suffix: &Vec<u8>, num_workers: usize, budget: u64) -> (r: Result<
    SearchReport,
    VanityError,
>)
    requires
        num_workers >= 1,
    ensures
        r matches Ok(rep) ==> report_valid(rep, suffix@, num_workers as int),
        r matches Err(e) ==> e == VanityError::SearchExhausted,
        budget == 0 ==> r is Err,
        suffix@.len() == 0 && budget >= 1 ==> r is Ok,
        !all_base58(suffix@) ==> r is Err,
{
    let mut race = Race::new(suffix, num_workers);
    loop
        invariant
            race.wf(),
            race.workers@.len() == num_workers,
            race.suffix@ == suffix@,
            num_workers >= 1,
            !race.found ==> all_running(race.workers@),
            !race.found ==> race.counter <= budget,
            budget == 0 ==> !race.found,
            suffix@.len() == 0 ==> race.found || race.counter == 0,
            !all_base58(suffix@) ==> !race.found,
        ensures
            race.wf(),
            race.workers@.len() == num_workers,
            race.suffix@ == suffix@,
            budget == 0 ==> !race.found,
            !all_base58(suffix@) ==> !race.found,
            !(exists|j: int| 0 <= j < race.workers@.len() && (#[trigger] race.workers@[j]).running),
        decreases (if race.found {
            0int
        } else {
            1int
        }), (if race.found {
            0int
        } else {
            budget - race.counter
        }),
    {
        let ghost found_start = race.found;
        let ghost counter_start = race.counter;
        let mut i: usize = 0;
        while i < num_workers
            invariant
                race.wf(),
                race.workers@.len() == num_workers,
                race.suffix@ == suffix@,
                num_workers >= 1,
                i <= num_workers,
                !race.found ==> all_running(race.workers@),
                !race.found ==> race.counter <= budget,
                budget == 0 ==> !race.found,
                found_start ==> race.found,
                found_start ==> race.counter == counter_start,
                found_start ==> forall|j: int|
                    0 <= j < i ==> !(#[trigger] race.workers@[j]).running,
                race.counter >= counter_start,
                !race.found && i >= 1 ==> race.counter >= counter_start + 1,
                suffix@.len() == 0 ==> race.found || race.counter == 0,
                !all_base58(suffix@) ==> !race.found,
            decreases num_workers - i,
        {
            if race.workers[i].running {
                if !race.found && (race.counter >= budget || race.counter == u64::MAX) {
                    // No delivery and no budget left: wind the search down
                    // as exhausted rather than keep trying forever. With the
                    // empty suffix the very first trial wins, so this exit
                    // is only reached with a zero budget.
                    return Err(VanityError::SearchExhausted);
                }
                race.step(i);
            }
            i += 1;
        }
        if !any_running(&race.workers) {
            break ;
        }
        proof {
            // A round that begins with the flag set stops every worker, so
            // the pool cannot still be running here.
            if found_start {
                assert(false);
            }
        }
    }
    proof {
        assert(!all_running(race.workers@)) by {
            assert(!(race.workers@[0].running));
        }
        assert(race.found);
        assert(all_base58(suffix@));
        assert forall|j: int| 0 <= j < race.workers@.len() implies !(#[trigger] race.workers@[j]).running by {
            if race.workers@[j].running {
                assert(exists|k: int|
                    0 <= k < race.workers@.len() && (#[trigger] race.workers@[k]).running);
            }
        }
    }
    let Race { slot, counter, workers, .. } = race;
    match slot {
        Some(winner) => Ok(SearchReport { winner, total_attempts: counter, workers }),
        None => vstd::pervasive::unreached(),
    }
}

/// The unbounded single-match search of the worker pool: loop until a trial
/// matches. The budget is only the counter's machine limit, at which the
/// otherwise unreachable exhaustion failure is reported instead of letting
/// the shared counter wrap.
pub fn find_address_with_suffix(suffix: &Vec<u8>, num_workers: usize) -> (r: Result<
    SearchReport,
    VanityError,
>)
    requires
        num_workers >= 1,
    ensures
        r matches Ok(rep) ==> report_valid(rep, suffix@, num_workers as int),
        r matches Err(e) ==> e == VanityError::SearchExhausted,
        suffix@.len() == 0 ==> r is Ok,
        !all_base58(suffix@) ==> r is Err,
{
    find_address_with_budget(suffix, num_workers, u64::MAX)
}

} // verus!
