//! The transactional scanner, modelled as a state machine: open a snapshot
//! transaction, issue bounded batches until a short batch signals the end of
//! the keyspace, then commit; any batch failure rolls the transaction back.
//! A driver (in-memory or a real store client) performs the outside work and
//! feeds the outcome of each step back as an event.

use vstd::prelude::*;

verus! {

/// One raw key/value pair, as the store returns it.
#[derive(Debug)]
pub struct RawPair {
    pub key: Vec<u8>,
    pub value: Vec<u8>,
}

impl View for RawPair {
    type V = (Seq<u8>, Seq<u8>);

    open spec fn view(&self) -> (Seq<u8>, Seq<u8>) {
        (self.key@, self.value@)
    }
}

/// The mathematical contents of a sequence of raw pairs.
pub open spec fn pairs_view(s: Seq<RawPair>) -> Seq<(Seq<u8>, Seq<u8>)> {
    s.map_values(|p: RawPair| p@)
}

pub proof fn lemma_pairs_view_concat(a: Seq<RawPair>, b: Seq<RawPair>)
    ensures
        pairs_view(a + b) == pairs_view(a) + pairs_view(b),
{
    assert(pairs_view(a + b) =~= pairs_view(a) + pairs_view(b));
}

impl RawPair {
    /// A copy of the pair with the same bytes.
    pub fn duplicate(&self) -> (r: RawPair)
        ensures
            r@ == self@,
    {
        let key = clone_bytes(&self.key);
        let value = clone_bytes(&self.value);
        RawPair { key, value }
    }
}

/// Copies a byte vector.
pub fn clone_bytes(v: &Vec<u8>) -> (r: Vec<u8>)
    ensures
        r@ == v@,
{
    let r = v.clone();
    proof {
        assert(r@ =~= v@);
    }
    r
}

/// How one full scan attempt can fail.
#[derive(Clone, Copy, PartialEq, Eq, Structural, Debug)]
pub enum ScanError {
    /// The snapshot transaction could not be opened; fatal, no retry.
    ConnectionFailed,
    /// A batch request failed mid-scan; the transaction was rolled back.
    /// A failing rollback is a secondary error and never masks this one.
    ScanFailed { rollback_failed: bool },
    /// All data was read but the transaction failed to finalize.
    CommitFailed,
}

/// Where a scan attempt stands. One scanner performs exactly one attempt.
#[derive(Clone, Copy, PartialEq, Eq, Structural, Debug)]
pub enum Phase {
    /// The snapshot transaction is being opened.
    Opening,
    /// The transaction is open and batches are being requested.
    Scanning,
    /// The whole keyspace was read; the transaction is being committed.
    Committing,
    /// A batch failed; the transaction is being rolled back.
    RollingBack,
    /// Committed: the accumulated pairs are the result.
    Done,
    /// The attempt failed; an error is recorded.
    Failed,
}

/// The outcome of the outside work that the current phase asked for.
pub enum ScanEvent {
    OpenOk,
    OpenFailed,
    BatchOk(Vec<RawPair>),
    BatchFailed,
    CommitOk,
    CommitFailed,
    RollbackOk,
    RollbackFailed,
}

/// Which events answer the outside work of a phase. The two terminal
/// phases take no further event: no state is reentrant.
pub open spec fn event_fits(p: Phase, e: ScanEvent) -> bool {
    match p {
        Phase::Opening => e is OpenOk || e is OpenFailed,
        Phase::Scanning => e is BatchOk || e is BatchFailed,
        Phase::Committing => e is CommitOk || e is CommitFailed,
        Phase::RollingBack => e is RollbackOk || e is RollbackFailed,
        Phase::Done => false,
        Phase::Failed => false,
    }
}

/// The phase transition relation. A full batch keeps scanning, a short one
/// moves to commit; a failed batch always moves to rollback; terminal
/// phases absorb every event.
pub open spec fn phase_after(limit: nat, p: Phase, e: ScanEvent) -> Phase {
    match p {
        Phase::Opening => if e is OpenOk {
            Phase::Scanning
        } else {
            Phase::Failed
        },
        Phase::Scanning => if e is BatchOk {
            if e->BatchOk_0@.len() < limit {
                Phase::Committing
            } else {
                Phase::Scanning
            }
        } else {
            Phase::RollingBack
        },
        Phase::Committing => if e is CommitOk {
            Phase::Done
        } else {
            Phase::Failed
        },
        Phase::RollingBack => Phase::Failed,
        Phase::Done => Phase::Done,
        Phase::Failed => Phase::Failed,
    }
}

/// The phase after a whole sequence of events.
pub open spec fn run_phases(limit: nat, p: Phase, evs: Seq<ScanEvent>) -> Phase
    decreases evs.len(),
{
    if evs.len() == 0 {
        p
    } else {
        run_phases(limit, phase_after(limit, p, evs[0]), evs.skip(1))
    }
}

/// Failure atomicity, first half: a failed batch always moves the scanner
/// to rollback, never to commit.
pub proof fn lemma_batch_failure_rolls_back(limit: nat, p: Phase, e: ScanEvent)
    requires
        p is Scanning,
        e is BatchFailed,
    ensures
        phase_after(limit, p, e) is RollingBack,
{
}

/// Failure atomicity, second half: once the scanner rolls back or has
/// failed, no sequence of further events can reach the committed `Done`
/// phase, so a failed scan can never produce a (partial) result.
pub proof fn lemma_no_commit_after_failure(limit: nat, p: Phase, evs: Seq<ScanEvent>)
    requires
        p is RollingBack || p is Failed,
    ensures
        !(run_phases(limit, p, evs) is Done),
    decreases evs.len(),
{
    if evs.len() > 0 {
        lemma_no_commit_after_failure(limit, phase_after(limit, p, evs[0]), evs.skip(1));
    }
}

/// One scan-all attempt: the state machine of the protocol, with the pairs
/// accumulated so far and the error of a failed attempt.
pub struct Scanner {
    /// The maximum number of pairs one batch may return; at least one.
    pub limit: usize,
    /// Where the attempt stands.
    pub phase: Phase,
    /// The pairs accumulated so far, in store order.
    pub acc: Vec<RawPair>,
    /// The recorded error; present exactly in the failed phase.
    pub error: Option<ScanError>,
}

impl Scanner {
    /// Well-formedness: a positive batch limit, and an error exactly when
    /// the attempt has failed.
    pub open spec fn wf(&self) -> bool {
        &&& self.limit >= 1
        &&& self.phase is Failed <==> self.error is Some
    }

    /// A fresh scanner about to open its transaction.
    pub fn new(limit: usize) -> (r: Scanner)
        requires
            limit >= 1,
        ensures
            r.wf(),
            r.limit == limit,
            r.phase is Opening,
            r.acc@.len() == 0,
    {
        Scanner { limit, phase: Phase::Opening, acc: Vec::new(), error: None }
    }

    /// The key to resume scanning just past, i.e. the last key accumulated.
    pub fn resume_key(&self) -> (r: Option<&Vec<u8>>)
        ensures
            match r {
                Some(k) => self.acc@.len() > 0 && k@ == self.acc@[self.acc@.len() - 1]@.0,
                None => self.acc@.len() == 0,
            },
    {
        if self.acc.len() == 0 {
            None
        } else {
            Some(&self.acc[self.acc.len() - 1].key)
        }
    }

    /// Feeds the outcome of the outside work back into the machine.
    pub fn step(&mut self, e: ScanEvent)
        requires
            old(self).wf(),
            event_fits(old(self).phase, e),
        ensures
            final(self).wf(),
            final(self).limit == old(self).limit,
            final(self).phase == phase_after(old(self).limit as nat, old(self).phase, e),
            e is BatchOk ==> pairs_view(final(self).acc@) == pairs_view(old(self).acc@)
                + pairs_view(e->BatchOk_0@),
            !(e is BatchOk) ==> final(self).acc@ == old(self).acc@,
            e is OpenFailed ==> final(self).error == Some(ScanError::ConnectionFailed),
            e is RollbackOk ==> final(self).error == Some(
                ScanError::ScanFailed { rollback_failed: false },
            ),
            e is RollbackFailed ==> final(self).error == Some(
                ScanError::ScanFailed { rollback_failed: true },
            ),
            e is CommitFailed ==> final(self).error == Some(ScanError::CommitFailed),
            !(final(self).phase is Failed) ==> final(self).error == old(self).error,
    {
        match e {
            ScanEvent::OpenOk => {
                self.phase = Phase::Scanning;
            },
            ScanEvent::OpenFailed => {
                self.phase = Phase::Failed;
                self.error = Some(ScanError::ConnectionFailed);
            },
            ScanEvent::BatchOk(mut pairs) => {
                let short = pairs.len() < self.limit;
                let ghost old_acc = self.acc@;
                let ghost batch = pairs@;
                self.acc.append(&mut pairs);
                if short {
                    self.phase = Phase::Committing;
                } else {
                    self.phase = Phase::Scanning;
                }
                proof {
                    lemma_pairs_view_concat(old_acc, batch);
                }
            },
            ScanEvent::BatchFailed => {
                self.phase = Phase::RollingBack;
            },
            ScanEvent::CommitOk => {
                self.phase = Phase::Done;
            },
            ScanEvent::CommitFailed => {
                self.phase = Phase::Failed;
                self.error = Some(ScanError::CommitFailed);
            },
            ScanEvent::RollbackOk => {
                self.phase = Phase::Failed;
                self.error = Some(ScanError::ScanFailed { rollback_failed: false });
            },
            ScanEvent::RollbackFailed => {
                self.phase = Phase::Failed;
                self.error = Some(ScanError::ScanFailed { rollback_failed: true });
            },
        }
    }

    /// The outcome of a finished attempt: the accumulated pairs of a
    /// committed scan, or the recorded error of a failed one.
    pub fn into_result(self) -> (r: Result<Vec<RawPair>, ScanError>)
        requires
            self.wf(),
            self.phase is Done || self.phase is Failed,
        ensures
            self.phase is Done ==> r is Ok && r->Ok_0 == self.acc,
            self.phase is Failed ==> r is Err && Some(r->Err_0) == self.error,
    {
        match self.phase {
            Phase::Done => Ok(self.acc),
            _ => Err(self.error.unwrap()),
        }
    }
}

} // verus!
