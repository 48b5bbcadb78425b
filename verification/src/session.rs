use vstd::arithmetic::mul::{lemma_mul_inequality, lemma_mul_is_distributive_add_other_way};
use vstd::prelude::*;

use crate::backup::{backup_line_spec, format_backup_line};
use crate::batcher::Batcher;
use crate::errors::VanityError;
use crate::predicate::is_suffix_of;
use crate::record::{make_record, seq_views, AddressRecord, RecordView};
use crate::search::{find_address_with_suffix, report_valid, SearchReport};
use crate::trial::{all_base58, base58_of, TrialKey};

verus! {

/// The progress-report cadence of the designated worker: a new observation
/// is emitted once at least this many milliseconds have passed.
pub const REPORT_INTERVAL_MS: u64 = 5000;

/// Whether the designated worker's periodic progress report is due.
pub fn progress_due(last_report_ms: u64, now_ms: u64) -> (r: bool)
    requires
        last_report_ms <= now_ms,
    ensures
        r == (now_ms - last_report_ms >= REPORT_INTERVAL_MS),
{
    now_ms - last_report_ms >= REPORT_INTERVAL_MS
}

/// Everything one successful single-match search hands the caller: the full
/// search report, the record built from the winner, the backup line to
/// append when local backup is enabled, and a full batch the moment the
/// flush threshold is reached.
pub struct Discovery {
    pub report: SearchReport,
    pub record: AddressRecord,
    pub backup_line: Option<Vec<u8>>,
    pub ready_batch: Option<Vec<AddressRecord>>,
}

/// What folding one winning keypair into the session hands back: its
/// record, the backup line to append when local backup is enabled, and a
/// full batch the moment the flush threshold is reached.
pub struct Logged {
    pub record: AddressRecord,
    pub backup_line: Option<Vec<u8>>,
    pub ready_batch: Option<Vec<AddressRecord>>,
}

/// The aggregate statistics of a finished session.
pub struct SessionStats {
    pub total_attempts: u128,
    pub found: u32,
    pub elapsed_ms: u64,
    /// Total attempts divided by addresses found; nothing when none was.
    pub attempts_per_address: Option<u128>,
    /// Attempts per second of elapsed time; nothing for a zero elapsed time.
    pub attempts_per_second: Option<u128>,
}

/// One address-search session: repeats the single-match search until the
/// requested count of records is produced, keeps the cumulative trial
/// counter, writes backup lines when enabled, and feeds the persistence
/// batcher. The caller performs the actual appends and network sends with
/// what each call hands back.
pub struct Session {
    suffix: Vec<u8>,
    count: u32,
    num_workers: usize,
    save_local: bool,
    found_count: u32,
    total_attempts: u128,
    batcher: Batcher,
}

impl Session {
    /// The target suffix.
    pub closed spec fn suffix_spec(self) -> Seq<u8> {
        self.suffix@
    }

    /// How many records the session was asked for.
    pub closed spec fn requested(self) -> u32 {
        self.count
    }

    /// How many records it has produced so far.
    pub closed spec fn discovered(self) -> u32 {
        self.found_count
    }

    /// The cumulative attempt counter over all searches so far.
    pub closed spec fn total_trials(self) -> u128 {
        self.total_attempts
    }

    pub closed spec fn saves_local(self) -> bool {
        self.save_local
    }

    pub closed spec fn workers(self) -> usize {
        self.num_workers
    }

    pub closed spec fn batch_size(self) -> u32 {
        self.batcher.batch_size()
    }

    /// The records buffered for persistence and not yet handed out.
    pub closed spec fn pending(self) -> Seq<RecordView> {
        self.batcher.pending()
    }

    /// Each search contributes at most a full counter's worth of trials, so
    /// the cumulative total stays below `discovered * u64::MAX`.
    pub closed spec fn wf(self) -> bool {
        &&& self.discovered() <= self.requested()
        &&& self.workers() >= 1
        &&& self.total_trials() as int <= (self.discovered() as int) * (u64::MAX as int)
        &&& self.batcher.wf()
    }

    pub fn new(suffix: &Vec<u8>, count: u32, batch_size: u32, num_workers: usize, save_local: bool) -> (s: Session)
        requires
            num_workers >= 1,
        ensures
            s.wf(),
            s.suffix_spec() == suffix@,
            s.requested() == count,
            s.batch_size() == batch_size,
            s.workers() == num_workers,
            s.saves_local() == save_local,
            s.discovered() == 0,
            s.total_trials() == 0,
            s.pending() == Seq::<RecordView>::empty(),
    {
        let cloned_suffix = suffix.clone();
        proof {
            assert(cloned_suffix@ =~= suffix@);
        }
        Session {
            suffix: cloned_suffix,
            count,
            num_workers,
            save_local,
            found_count: 0,
            total_attempts: 0,
            batcher: Batcher::new(batch_size),
        }
    }

    pub fn discovered_count(&self) -> (c: u32)
        ensures
            c == self.discovered(),
    {
        self.found_count
    }

    pub fn requested_count(&self) -> (c: u32)
        ensures
            c == self.requested(),
    {
        self.count
    }

    pub fn is_done(&self) -> (b: bool)
        ensures
            b == (self.discovered() == self.requested()),
    {
        self.found_count == self.count
    }

    /// Run one single-match search and fold its result into the session:
    /// build the record, count the trials into the cumulative total, write
    /// the backup line when local backup is enabled, and buffer the record,
    /// handing out a full batch when the threshold is reached. A failed
    /// search leaves the session untouched and is fatal to it.
    pub fn find_next(&mut self) -> (r: Result<Discovery, VanityError>)
        requires
            old(self).wf(),
            old(self).discovered() < old(self).requested(),
        ensures
            final(self).wf(),
            final(self).suffix_spec() == old(self).suffix_spec(),
            final(self).requested() == old(self).requested(),
            final(self).batch_size() == old(self).batch_size(),
            final(self).workers() == old(self).workers(),
            final(self).saves_local() == old(self).saves_local(),
            r matches Ok(d) ==> {
                &&& report_valid(d.report, old(self).suffix_spec(), old(self).workers() as int)
                &&& d.record@.pub_key == d.report.winner.address@
                &&& is_suffix_of(old(self).suffix_spec(), d.record@.pub_key)
                &&& d.record@.private_key == base58_of(d.report.winner.secret@)
                &&& all_base58(d.record@.pub_key)
                &&& all_base58(d.record@.private_key)
                &&& d.record@.suffix_type == old(self).suffix_spec()
                &&& (old(self).saves_local() ==> (d.backup_line matches Some(l) && l@
                    == backup_line_spec(d.record@)))
                &&& (!old(self).saves_local() ==> d.backup_line is None)
                &&& (old(self).batch_size() > 0 && old(self).pending().len() + 1 >= old(
                    self,
                ).batch_size() ==> {
                    &&& d.ready_batch matches Some(batch) && seq_views(batch@) == old(
                        self,
                    ).pending().push(d.record@)
                    &&& final(self).pending() == Seq::<RecordView>::empty()
                })
                &&& (!(old(self).batch_size() > 0 && old(self).pending().len() + 1 >= old(
                    self,
                ).batch_size()) ==> {
                    &&& d.ready_batch is None
                    &&& final(self).pending() == old(self).pending().push(d.record@)
                })
                &&& final(self).discovered() == old(self).discovered() + 1
                &&& final(self).total_trials() == old(self).total_trials()
                    + d.report.total_attempts
            },
            r matches Err(e) ==> {
                &&& e == VanityError::SearchExhausted
                &&& final(self).discovered() == old(self).discovered()
                &&& final(self).total_trials() == old(self).total_trials()
                &&& final(self).pending() == old(self).pending()
            },
            old(self).suffix_spec().len() == 0 ==> r is Ok,
            !all_base58(old(self).suffix_spec()) ==> r is Err,
    {
        match find_address_with_suffix(&self.suffix, self.num_workers) {
            Err(e) => Err(e),
            Ok(rep) => {
                let logged = self.record_discovery(&rep.winner, rep.total_attempts);
                Ok(
                    Discovery {
                        report: rep,
                        record: logged.record,
                        backup_line: logged.backup_line,
                        ready_batch: logged.ready_batch,
                    },
                )
            },
        }
    }

    /// Fold one winning keypair into the session, however its search was
    /// run — in-process through [`find_next`](Session::find_next), or by a
    /// caller driving the worker pool on real threads around the trial
    /// generator and the suffix predicate. The winner must really end with
    /// the session's suffix (the caller checks it with the predicate), and
    /// `attempts` is that search's exact trial total. Builds the record,
    /// counts the trials into the cumulative total, writes the backup line
    /// when local backup is enabled, and buffers the record, handing out a
    /// full batch when the threshold is reached.
    pub fn record_discovery(&mut self, winner: &TrialKey, attempts: u64) -> (d: Logged)
        requires
            old(self).wf(),
            old(self).discovered() < old(self).requested(),
            is_suffix_of(old(self).suffix_spec(), winner.address@),
        ensures
            final(self).wf(),
            final(self).suffix_spec() == old(self).suffix_spec(),
            final(self).requested() == old(self).requested(),
            final(self).batch_size() == old(self).batch_size(),
            final(self).workers() == old(self).workers(),
            final(self).saves_local() == old(self).saves_local(),
            d.record@.pub_key == winner.address@,
            is_suffix_of(old(self).suffix_spec(), d.record@.pub_key),
            d.record@.private_key == base58_of(winner.secret@),
            all_base58(d.record@.private_key),
            d.record@.suffix_type == old(self).suffix_spec(),
            old(self).saves_local() ==> (d.backup_line matches Some(l) && l@ == backup_line_spec(
                d.record@,
            )),
            !old(self).saves_local() ==> d.backup_line is None,
            old(self).batch_size() > 0 && old(self).pending().len() + 1 >= old(
                self,
            ).batch_size() ==> {
                &&& d.ready_batch matches Some(batch) && seq_views(batch@) == old(
                    self,
                ).pending().push(d.record@)
                &&& final(self).pending() == Seq::<RecordView>::empty()
            },
            !(old(self).batch_size() > 0 && old(self).pending().len() + 1 >= old(
                self,
            ).batch_size()) ==> {
                &&& d.ready_batch is None
                &&& final(self).pending() == old(self).pending().push(d.record@)
            },
            final(self).discovered() == old(self).discovered() + 1,
            final(self).total_trials() == old(self).total_trials() + attempts,
    {
        let record = make_record(winner, &self.suffix);
        let backup_line = if self.save_local {
            Some(format_backup_line(&record))
        } else {
            None
        };
        let ready_batch = self.batcher.push(record.duplicate());
        proof {
            lemma_mul_is_distributive_add_other_way(u64::MAX as int, self.found_count as int, 1);
            lemma_mul_inequality(
                self.found_count as int + 1,
                self.count as int,
                u64::MAX as int,
            );
            lemma_mul_inequality(self.count as int, u32::MAX as int, u64::MAX as int);
        }
        self.found_count = self.found_count + 1;
        self.total_attempts = self.total_attempts + (attempts as u128);
        Logged { record, backup_line, ready_batch }
    }

    /// The flush at session end: hand out whatever is still buffered; the
    /// buffer is empty afterwards either way.
    pub fn finish(&mut self) -> (rest: Option<Vec<AddressRecord>>)
        requires
            old(self).wf(),
        ensures
            final(self).wf(),
            final(self).suffix_spec() == old(self).suffix_spec(),
            final(self).requested() == old(self).requested(),
            final(self).batch_size() == old(self).batch_size(),
            final(self).workers() == old(self).workers(),
            final(self).saves_local() == old(self).saves_local(),
            final(self).discovered() == old(self).discovered(),
            final(self).total_trials() == old(self).total_trials(),
            final(self).pending() == Seq::<RecordView>::empty(),
            old(self).pending().len() > 0 ==> (rest matches Some(batch) && seq_views(batch@)
                == old(self).pending()),
            old(self).pending().len() == 0 ==> rest is None,
    {
        self.batcher.take_remaining()
    }

    /// The final statistics, computed from the cumulative counter and the
    /// caller-measured elapsed time.
    pub fn stats(&self, elapsed_ms: u64) -> (s: SessionStats)
        requires
            self.wf(),
        ensures
            s.total_attempts == self.total_trials(),
            s.found == self.discovered(),
            s.elapsed_ms == elapsed_ms,
            self.discovered() > 0 ==> (s.attempts_per_address matches Some(v) && v as int
                == self.total_trials() as int / self.discovered() as int),
            self.discovered() == 0 ==> s.attempts_per_address is None,
            elapsed_ms > 0 ==> (s.attempts_per_second matches Some(v) && v as int == (
            self.total_trials() as int * 1000) / elapsed_ms as int),
            elapsed_ms == 0 ==> s.attempts_per_second is None,
    {
        let attempts_per_address = if self.found_count > 0 {
            Some(self.total_attempts / (self.found_count as u128))
        } else {
            None
        };
        proof {
            lemma_mul_inequality(self.found_count as int, u32::MAX as int, u64::MAX as int);
            lemma_mul_inequality(
                self.total_attempts as int,
                (u32::MAX as int) * (u64::MAX as int),
                1000,
            );
        }
        let attempts_per_second = if elapsed_ms > 0 {
            Some(self.total_attempts * 1000 / (elapsed_ms as u128))
        } else {
            None
        };
        SessionStats {
            total_attempts: self.total_attempts,
            found: self.found_count,
            elapsed_ms,
            attempts_per_address,
            attempts_per_second,
        }
    }
}

} // verus!
