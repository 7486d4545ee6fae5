//! Full-keyspace retrieval: an in-memory snapshot store, the pagination
//! driver that runs the scanner against it, and the facade that classifies
//! every key and value of the result.

use vstd::prelude::*;

use crate::keys::key_lt;
use crate::keys::lemma_lex_asymmetric;
use crate::keys::lemma_lex_irreflexive;
use crate::keys::lex_lt;
use crate::scan::pairs_view;
use crate::scan::Phase;
use crate::scan::RawPair;
use crate::scan::ScanError;
use crate::scan::ScanEvent;
use crate::scan::Scanner;
use crate::value::classified;
use crate::value::classify;
use crate::value::SemanticValue;

verus! {

/// Keys are unique and ascending, as the store returns them.
pub open spec fn sorted_strict(s: Seq<RawPair>) -> bool {
    forall|i: int, j: int| 0 <= i < j < s.len() ==> #[trigger] lex_lt(s[i]@.0, s[j]@.0)
}

/// An in-memory snapshot of a keyspace: a substitutable stand-in for the
/// transactional store, with an optional injected batch failure for
/// exercising the rollback path.
pub struct MemStore {
    /// The whole keyspace, ascending by key.
    pub pairs: Vec<RawPair>,
    /// If present, the index of the batch request that fails.
    pub fail_at: Option<usize>,
}

/// The view of an optional resume key.
pub open spec fn opt_key_view(k: Option<&Vec<u8>>) -> Option<Seq<u8>> {
    match k {
        Some(key) => Some(key@),
        None => None,
    }
}

/// The index of the first pair whose key comes strictly after the resume
/// key; zero when there is none to resume past.
pub open spec fn first_after(s: Seq<RawPair>, k: Option<Seq<u8>>) -> int
    decreases s.len(),
{
    match k {
        None => 0,
        Some(key) => if s.len() == 0 {
            0
        } else if lex_lt(key, s[0]@.0) {
            0
        } else {
            1 + first_after(s.skip(1), k)
        },
    }
}

proof fn lemma_first_after_characterization(s: Seq<RawPair>, key: Seq<u8>, f: int)
    requires
        0 <= f <= s.len(),
        forall|j: int| 0 <= j < f ==> !lex_lt(key, #[trigger] s[j]@.0),
        f < s.len() ==> lex_lt(key, s[f]@.0),
    ensures
        first_after(s, Some(key)) == f,
    decreases s.len(),
{
    if f == 0 {
    } else {
        assert(!lex_lt(key, s[0]@.0));
        lemma_first_after_characterization(s.skip(1), key, f - 1);
    }
}

/// The end of the batch that starts at `f`: at most `limit` pairs.
pub open spec fn batch_end(len: int, f: int, limit: int) -> int {
    if f + limit <= len {
        f + limit
    } else {
        len
    }
}

impl MemStore {
    /// Well-formedness: the keyspace is ascending with unique keys.
    pub open spec fn wf(&self) -> bool {
        sorted_strict(self.pairs@)
    }

    /// One bounded range request against the snapshot: up to `limit` pairs
    /// whose keys come strictly after the resume key, in ascending order.
    /// Fails exactly when the injected failure index equals `call_index`.
    pub fn scan_batch(&self, start_after: Option<&Vec<u8>>, limit: usize, call_index: usize) -> (r:
        Option<Vec<RawPair>>)
        requires
            self.wf(),
            limit >= 1,
        ensures
            r is None <==> self.fail_at == Some(call_index),
            r is Some ==> pairs_view(r->0@) == pairs_view(
                self.pairs@.subrange(
                    first_after(self.pairs@, opt_key_view(start_after)),
                    batch_end(
                        self.pairs@.len() as int,
                        first_after(self.pairs@, opt_key_view(start_after)),
                        limit as int,
                    ),
                ),
            ),
            r is Some ==> r->0@.len() <= limit,
    {
        match self.fail_at {
            Some(fail_index) => {
                if fail_index == call_index {
                    return None;
                }
            },
            None => {},
        }
        let mut idx: usize = 0;
        match start_after {
            Some(k) => {
                while idx < self.pairs.len() && !key_lt(k, &self.pairs[idx].key)
                    invariant
                        self.wf(),
                        idx <= self.pairs@.len(),
                        forall|j: int| 0 <= j < idx ==> !lex_lt(k@, #[trigger] self.pairs@[j]@.0),
                    decreases self.pairs@.len() - idx,
                {
                    idx = idx + 1;
                }
                proof {
                    lemma_first_after_characterization(self.pairs@, k@, idx as int);
                }
            },
            None => {},
        }
        let ghost f = idx as int;
        assert(first_after(self.pairs@, opt_key_view(start_after)) == f);
        let mut out: Vec<RawPair> = Vec::new();
        let mut j: usize = idx;
        while j < self.pairs.len() && out.len() < limit
            invariant
                self.wf(),
                f == idx,
                idx <= j <= self.pairs@.len(),
                out@.len() == j - idx,
                out@.len() <= limit,
                pairs_view(out@) == pairs_view(self.pairs@.subrange(f, j as int)),
            decreases self.pairs@.len() - j,
        {
            let p = self.pairs[j].duplicate();
            let ghost prev = out@;
            let ghost pv = p@;
            out.push(p);
            proof {
                assert(out@ == prev.push(p));
                assert forall|t: int| 0 <= t < out@.len() implies pairs_view(out@)[t] == pairs_view(
                    self.pairs@.subrange(f, j + 1),
                )[t] by {
                    if t < prev.len() {
                        assert(pairs_view(prev)[t] == pairs_view(
                            self.pairs@.subrange(f, j as int),
                        )[t]);
                        assert(prev[t]@ == self.pairs@.subrange(f, j as int)[t]@);
                    } else {
                        assert(out@[t]@ == pv);
                        assert(pv == self.pairs@[j as int]@);
                    }
                }
                assert(pairs_view(out@) =~= pairs_view(self.pairs@.subrange(f, j + 1)));
            }
            j = j + 1;
        }
        proof {
            assert(j == batch_end(self.pairs@.len() as int, f, limit as int));
        }
        Some(out)
    }
}

spec fn scan_measure(p: Phase, len: int, limit: int, calls: int) -> int {
    if p is Scanning {
        len + limit - calls * limit
    } else {
        0
    }
}

/// Scans the whole keyspace of an in-memory snapshot through the scanner
/// state machine, batch by batch. Succeeds, with every pair in ascending
/// key order, unless the injected failure strikes one of the requested
/// batches; a failed scan returns the scan error and no data at all.
pub fn scan_all_from(store: &MemStore, limit: usize) -> (r: Result<Vec<RawPair>, ScanError>)
    requires
        store.wf(),
        limit >= 1,
    ensures
        r is Err <==> (store.fail_at is Some && (store.fail_at->0 as int) * (limit as int)
            <= store.pairs@.len()),
        r is Ok ==> pairs_view(r->Ok_0@) == pairs_view(store.pairs@),
        r is Err ==> r->Err_0 == (ScanError::ScanFailed { rollback_failed: false }),
{
    let ghost len = store.pairs@.len() as int;
    let n = store.pairs.len();
    proof {
        assert(len == n);
        assert(len <= usize::MAX);
    }
    let mut scanner = Scanner::new(limit);
    // The in-memory snapshot is always reachable: opening succeeds.
    scanner.step(ScanEvent::OpenOk);
    let mut calls: usize = 0;
    while scanner.phase == Phase::Scanning
        invariant
            store.wf(),
            limit >= 1,
            scanner.wf(),
            scanner.limit == limit,
            len == store.pairs@.len(),
            len <= usize::MAX,
            scanner.phase is Scanning || scanner.phase is Committing || scanner.phase is Failed,
            scanner.phase is Scanning ==> {
                &&& calls * limit <= len
                &&& pairs_view(scanner.acc@) == pairs_view(store.pairs@.take(calls * limit))
                &&& (store.fail_at is Some ==> store.fail_at->0 >= calls)
            },
            scanner.phase is Committing ==> {
                &&& pairs_view(scanner.acc@) == pairs_view(store.pairs@)
                &&& (store.fail_at is Some ==> (store.fail_at->0 as int) * (limit as int) > len)
            },
            scanner.phase is Failed ==> {
                &&& scanner.error == Some(ScanError::ScanFailed { rollback_failed: false })
                &&& store.fail_at is Some
                &&& (store.fail_at->0 as int) * (limit as int) <= len
            },
        decreases scan_measure(scanner.phase, len, limit as int, calls as int),
    {
        let ghost i = (calls * limit) as int;
        let rk = scanner.resume_key();
        proof {
            // The resume key pins the batch start to the end of the prefix
            // accumulated so far.
            assert(scanner.acc@.len() == pairs_view(scanner.acc@).len());
            match rk {
                None => {
                    assert(i == 0);
                    assert(first_after(store.pairs@, opt_key_view(rk)) == 0);
                },
                Some(k) => {
                    assert(i >= 1);
                    assert(pairs_view(scanner.acc@)[i - 1] == pairs_view(
                        store.pairs@.take(i),
                    )[i - 1]);
                    assert(k@ == store.pairs@[i - 1]@.0);
                    assert forall|j: int| 0 <= j < i implies !lex_lt(
                        k@,
                        #[trigger] store.pairs@[j]@.0,
                    ) by {
                        if j < i - 1 {
                            lemma_lex_asymmetric(store.pairs@[j]@.0, k@);
                        } else {
                            lemma_lex_irreflexive(k@);
                        }
                    }
                    lemma_first_after_characterization(store.pairs@, k@, i);
                },
            }
        }
        let batch = store.scan_batch(rk, limit, calls);
        match batch {
            Some(pairs) => {
                let short = pairs.len() < limit;
                let ghost m = batch_end(len, i, limit as int);
                let ghost batch_view = pairs@;
                proof {
                    assert(pairs_view(batch_view).len() == m - i);
                }
                scanner.step(ScanEvent::BatchOk(pairs));
                proof {
                    assert(pairs_view(scanner.acc@) =~= pairs_view(store.pairs@.take(m)));
                }
                if short {
                    // The keyspace is exhausted: the machine moved to commit.
                    proof {
                        assert(m - i < limit);
                        assert(m == len);
                        assert(store.pairs@.take(len) =~= store.pairs@);
                        if store.fail_at is Some {
                            let fa = store.fail_at->0 as int;
                            assert(fa != calls);
                            assert(fa >= calls + 1);
                            assert(fa * limit >= (calls + 1) * (limit as int)) by (nonlinear_arith)
                                requires
                                    fa >= calls + 1,
                                    limit >= 1,
                            ;
                            assert((calls + 1) * (limit as int) == i + limit) by (nonlinear_arith)
                                requires
                                    i == calls * limit,
                            ;
                        }
                    }
                } else {
                    proof {
                        assert(m - i == limit);
                        assert(m == i + limit);
                        assert(i + limit <= len);
                        assert((calls + 1) * (limit as int) == i + limit) by (nonlinear_arith)
                            requires
                                i == calls * limit,
                        ;
                        assert(calls + 1 <= (calls + 1) * (limit as int)) by (nonlinear_arith)
                            requires
                                limit >= 1,
                                calls >= 0,
                        ;
                        assert(calls + 1 <= len);
                        assert(len <= usize::MAX);
                    }
                    calls = calls + 1;
                }
            },
            None => {
                // The batch request failed: roll back and record the scan
                // failure. Rolling back the in-memory snapshot succeeds.
                scanner.step(ScanEvent::BatchFailed);
                scanner.step(ScanEvent::RollbackOk);
                proof {
                    assert(store.fail_at == Some(calls));
                }
            },
        }
    }
    if scanner.phase == Phase::Committing {
        // Committing the in-memory snapshot succeeds.
        scanner.step(ScanEvent::CommitOk);
    }
    scanner.into_result()
}

/// How a failed retrieval is reported to callers, keeping the distinction
/// among connection, scan and commit failures.
#[derive(Clone, Copy, PartialEq, Eq, Structural, Debug)]
pub enum RetrievalError {
    /// No session with the store could be established.
    ConnectionFailed,
    /// A batch request failed mid-scan; the flag records whether the
    /// best-effort rollback failed too.
    ScanFailed { rollback_failed: bool },
    /// The data was read but the transaction failed to finalize.
    CommitFailed,
}

/// The caller-facing error for each scanner error.
pub open spec fn wrapped_error(e: ScanError) -> RetrievalError {
    match e {
        ScanError::ConnectionFailed => RetrievalError::ConnectionFailed,
        ScanError::ScanFailed { rollback_failed } => RetrievalError::ScanFailed { rollback_failed },
        ScanError::CommitFailed => RetrievalError::CommitFailed,
    }
}

/// Wraps a scanner error for callers of the facade.
pub fn wrap_error(e: ScanError) -> (r: RetrievalError)
    ensures
        r == wrapped_error(e),
{
    match e {
        ScanError::ConnectionFailed => RetrievalError::ConnectionFailed,
        ScanError::ScanFailed { rollback_failed } => RetrievalError::ScanFailed { rollback_failed },
        ScanError::CommitFailed => RetrievalError::CommitFailed,
    }
}

/// One classified key with its classified value.
#[derive(Debug)]
pub struct KeyValuePair {
    pub key: SemanticValue,
    pub value: SemanticValue,
}

/// Classifies each key and each value of every raw pair, independently and
/// in order.
pub fn classify_pairs(raw: &Vec<RawPair>) -> (r: Vec<KeyValuePair>)
    ensures
        r@.len() == raw@.len(),
        forall|i: int|
            0 <= i < raw@.len() ==> #[trigger] classified(raw@[i]@.0, r@[i].key) && classified(
                raw@[i]@.1,
                r@[i].value,
            ),
{
    let mut out: Vec<KeyValuePair> = Vec::new();
    let mut i: usize = 0;
    while i < raw.len()
        invariant
            i <= raw@.len(),
            out@.len() == i,
            forall|j: int|
                0 <= j < i ==> #[trigger] classified(raw@[j]@.0, out@[j].key) && classified(
                    raw@[j]@.1,
                    out@[j].value,
                ),
        decreases raw@.len() - i,
    {
        let key = classify(crate::scan::clone_bytes(&raw[i].key));
        let value = classify(crate::scan::clone_bytes(&raw[i].value));
        out.push(KeyValuePair { key, value });
        i = i + 1;
    }
    out
}

/// The single entry point for external callers: reads one snapshot of the
/// whole keyspace and returns every pair classified, in ascending key
/// order, or a typed error that keeps the kind of failure.
pub fn get_all_pairs_from(store: &MemStore, limit: usize) -> (r: Result<
    Vec<KeyValuePair>,
    RetrievalError,
>)
    requires
        store.wf(),
        limit >= 1,
    ensures
        r is Err <==> (store.fail_at is Some && (store.fail_at->0 as int) * (limit as int)
            <= store.pairs@.len()),
        r is Err ==> r->Err_0 == (RetrievalError::ScanFailed { rollback_failed: false }),
        r is Ok ==> r->Ok_0@.len() == store.pairs@.len(),
        r is Ok ==> forall|i: int|
            0 <= i < store.pairs@.len() ==> #[trigger] classified(
                store.pairs@[i]@.0,
                r->Ok_0@[i].key,
            ) && classified(store.pairs@[i]@.1, r->Ok_0@[i].value),
{
    match scan_all_from(store, limit) {
        Ok(pairs) => {
            let out = classify_pairs(&pairs);
            proof {
                assert(pairs_view(pairs@).len() == pairs_view(store.pairs@).len());
                assert forall|i: int| 0 <= i < store.pairs@.len() implies #[trigger] classified(
                    store.pairs@[i]@.0,
                    out@[i].key,
                ) && classified(store.pairs@[i]@.1, out@[i].value) by {
                    assert(pairs_view(pairs@)[i] == pairs_view(store.pairs@)[i]);
                    assert(pairs@[i]@ == store.pairs@[i]@);
                }
            }
            Ok(out)
        },
        Err(e) => Err(wrap_error(e)),
    }
}

} // verus!
