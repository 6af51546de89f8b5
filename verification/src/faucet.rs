//! The dispensing service: a cooldown store keyed by caller identity, and the
//! per-request state machine that reads it, enforces the cooldown, encodes a
//! transfer instruction and sends it through one of the two transport paths.

use vstd::prelude::*;

use crate::COOLDOWN_MS;
use crate::account::CallerId;
use crate::codec;
use crate::host::{CallRuntime, FetchAsset, FetchAssetError, HostError};

verus! {

/// The two recoverable ways a dispensation request can fail.
#[derive(Debug, Clone, Copy, PartialEq, Eq)]
pub enum FaucetError {
    /// The caller's cooldown window has not elapsed yet; nothing was changed.
    DripTooOften,
    /// The transport rejected the instruction; the cooldown was already
    /// consumed.
    TransferFailed,
}

/// The last recorded dispensation time of `caller`; a caller with no record
/// reads as time `0`.
pub open spec fn spec_last_access(records: Map<Seq<u8>, u64>, caller: Seq<u8>) -> u64 {
    if records.contains_key(caller) {
        records[caller]
    } else {
        0
    }
}

/// Whether a request by `caller` at time `now` passes the cooldown check: the
/// window must have elapsed in full, the boundary instant included.
pub open spec fn spec_cooldown_passed(
    records: Map<Seq<u8>, u64>,
    caller: Seq<u8>,
    now: u64,
) -> bool {
    spec_last_access(records, caller) + COOLDOWN_MS <= now
}

/// The record store after a dispensation attempt by `caller` at time `now`:
/// unchanged when the cooldown rejects, otherwise the attempt time is
/// recorded, whatever the transport later answers.
pub open spec fn spec_drip_records(
    records: Map<Seq<u8>, u64>,
    caller: Seq<u8>,
    now: u64,
) -> Map<Seq<u8>, u64> {
    if spec_cooldown_passed(records, caller, now) {
        records.insert(caller, now)
    } else {
        records
    }
}

/// The mapping an entry list represents; a later entry for the same key would
/// override an earlier one.
spec fn map_of(entries: Seq<(CallerId, u64)>) -> Map<Seq<u8>, u64>
    decreases entries.len(),
{
    if entries.len() == 0 {
        Map::empty()
    } else {
        map_of(entries.drop_last()).insert(entries.last().0@, entries.last().1)
    }
}

/// At most one entry per caller identity.
spec fn entries_unique(entries: Seq<(CallerId, u64)>) -> bool {
    forall|i: int, j: int|
        0 <= i < j < entries.len() ==> entries[i].0@ != entries[j].0@
}

/// The rate-limited dispensing service. Its state is one record per caller:
/// the time of that caller's last successful cooldown consumption.
pub struct Faucet {
    records: Vec<(CallerId, u64)>,
}

impl View for Faucet {
    type V = Map<Seq<u8>, u64>;

    closed spec fn view(&self) -> Map<Seq<u8>, u64> {
        map_of(self.records@)
    }
}

proof fn lemma_map_of_contains(entries: Seq<(CallerId, u64)>, key: Seq<u8>)
    ensures
        map_of(entries).contains_key(key) <==> exists|i: int|
            0 <= i < entries.len() && entries[i].0@ == key,
    decreases entries.len(),
{
    if entries.len() > 0 {
        let dl = entries.drop_last();
        lemma_map_of_contains(dl, key);
        if entries.last().0@ == key {
            assert(entries[entries.len() - 1].0@ == key);
        } else {
            if map_of(entries).contains_key(key) {
                let i = choose|i: int| 0 <= i < dl.len() && dl[i].0@ == key;
                assert(entries[i].0@ == key);
            }
            if exists|i: int| 0 <= i < entries.len() && entries[i].0@ == key {
                let i = choose|i: int| 0 <= i < entries.len() && entries[i].0@ == key;
                assert(dl[i].0@ == key);
            }
        }
    }
}

proof fn lemma_map_of_value(entries: Seq<(CallerId, u64)>, i: int)
    requires
        0 <= i < entries.len(),
        forall|j: int| i < j < entries.len() ==> entries[j].0@ != entries[i].0@,
    ensures
        map_of(entries).contains_key(entries[i].0@),
        map_of(entries)[entries[i].0@] == entries[i].1,
    decreases entries.len(),
{
    if i < entries.len() - 1 {
        let dl = entries.drop_last();
        assert(entries[entries.len() - 1].0@ != entries[i].0@);
        lemma_map_of_value(dl, i);
    }
}

proof fn lemma_map_of_remove(entries: Seq<(CallerId, u64)>, i: int)
    requires
        entries_unique(entries),
        0 <= i < entries.len(),
    ensures
        map_of(entries.remove(i)) == map_of(entries).remove(entries[i].0@),
    decreases entries.len(),
{
    let key = entries[i].0@;
    let dl = entries.drop_last();
    if i == entries.len() - 1 {
        assert(entries.remove(i) =~= dl);
        lemma_map_of_contains(dl, key);
        assert(forall|j: int| 0 <= j < dl.len() ==> dl[j].0@ != key);
        assert(map_of(dl).insert(key, entries[i].1).remove(key) =~= map_of(dl));
    } else {
        let r = entries.remove(i);
        assert(r.drop_last() =~= dl.remove(i));
        assert(r.last() == entries.last());
        assert(entries_unique(dl));
        lemma_map_of_remove(dl, i);
        let last_key = entries.last().0@;
        assert(last_key != key);
        assert(map_of(dl).remove(key).insert(last_key, entries.last().1) =~= map_of(dl).insert(
            last_key,
            entries.last().1,
        ).remove(key));
    }
}

proof fn lemma_remove_keeps_unique(entries: Seq<(CallerId, u64)>, i: int)
    requires
        entries_unique(entries),
        0 <= i < entries.len(),
    ensures
        entries_unique(entries.remove(i)),
        forall|j: int|
            0 <= j < entries.remove(i).len() ==> entries.remove(i)[j].0@ != entries[i].0@,
{
    let r = entries.remove(i);
    assert forall|a: int, b: int| 0 <= a < b < r.len() implies r[a].0@ != r[b].0@ by {
        if b < i {
            assert(r[a] == entries[a] && r[b] == entries[b]);
        } else if a < i {
            assert(r[a] == entries[a] && r[b] == entries[b + 1]);
        } else {
            assert(r[a] == entries[a + 1] && r[b] == entries[b + 1]);
        }
    }
    assert forall|j: int| 0 <= j < r.len() implies r[j].0@ != entries[i].0@ by {
        if j < i {
            assert(r[j] == entries[j]);
        } else {
            assert(r[j] == entries[j + 1]);
        }
    }
}

impl Faucet {
    /// The record store has no entry for two distinct callers' identities in
    /// common: each caller owns at most one record.
    pub closed spec fn wf(&self) -> bool {
        entries_unique(self.records@)
    }

    /// A fresh service: no caller has ever been dispensed to.
    pub fn new() -> (r: Faucet)
        ensures
            r.wf(),
            r@ == Map::<Seq<u8>, u64>::empty(),
    {
        Faucet { records: Vec::new() }
    }

    fn find_index(&self, caller: &CallerId) -> (r: Option<usize>)
        ensures
            match r {
                Some(i) => i < self.records@.len() && self.records@[i as int].0@ == caller@,
                None => forall|j: int|
                    0 <= j < self.records@.len() ==> self.records@[j].0@ != caller@,
            },
    {
        let n = self.records.len();
        let mut i: usize = 0;
        while i < n
            invariant
                i <= n,
                n == self.records@.len(),
                forall|j: int| 0 <= j < i ==> self.records@[j].0@ != caller@,
            decreases n - i,
        {
            let entry = self.records[i];
            if entry.0.equals(caller) {
                return Some(i);
            }
            i += 1;
        }
        None
    }

    /// The time of the caller's last successful cooldown consumption; a caller
    /// with no record reads as `0`.
    pub fn last_access_time(&self, caller: &CallerId) -> (r: u64)
        requires
            self.wf(),
        ensures
            r == spec_last_access(self@, caller@),
    {
        match self.find_index(caller) {
            Some(i) => {
                proof {
                    lemma_map_of_value(self.records@, i as int);
                }
                self.records[i].1
            },
            None => {
                proof {
                    lemma_map_of_contains(self.records@, caller@);
                }
                0
            },
        }
    }

    /// Records `now` as the caller's last dispensation time, overwriting any
    /// earlier record.
    fn record_access(&mut self, caller: &CallerId, now: u64)
        requires
            old(self).wf(),
        ensures
            final(self).wf(),
            final(self)@ == old(self)@.insert(caller@, now),
    {
        let ghost entries = self.records@;
        match self.find_index(caller) {
            Some(i) => {
                proof {
                    lemma_map_of_remove(entries, i as int);
                    lemma_remove_keeps_unique(entries, i as int);
                }
                self.records.remove(i);
                self.records.push((*caller, now));
                proof {
                    let pushed = self.records@;
                    assert(pushed.drop_last() =~= entries.remove(i as int));
                    assert(map_of(pushed) == map_of(entries.remove(i as int)).insert(
                        caller@,
                        now,
                    ));
                    assert(map_of(pushed) =~= map_of(entries).insert(caller@, now));
                    assert forall|a: int, b: int|
                        0 <= a < b < pushed.len() implies pushed[a].0@ != pushed[b].0@ by {
                        if b < pushed.len() - 1 {
                            assert(pushed[a] == entries.remove(i as int)[a]);
                            assert(pushed[b] == entries.remove(i as int)[b]);
                        } else {
                            assert(pushed[a] == entries.remove(i as int)[a]);
                            assert(pushed[b].0@ == caller@);
                        }
                    }
                }
            },
            None => {
                self.records.push((*caller, now));
                proof {
                    let pushed = self.records@;
                    assert(pushed.drop_last() =~= entries);
                    lemma_map_of_contains(entries, caller@);
                    assert forall|a: int, b: int|
                        0 <= a < b < pushed.len() implies pushed[a].0@ != pushed[b].0@ by {
                        if b < pushed.len() - 1 {
                            assert(pushed[a] == entries[a]);
                            assert(pushed[b] == entries[b]);
                        } else {
                            assert(pushed[a] == entries[a]);
                            assert(pushed[b].0@ == caller@);
                        }
                    }
                }
            },
        }
    }

    /// One dispensation request through the direct transport: enforce the
    /// cooldown, consume it, encode the fixed transfer instruction and submit
    /// it as an encoded runtime call.
    ///
    /// `caller` and `now` are the identity and timestamp the host supplies for
    /// this request; timestamps never decrease, so `now` is no earlier than
    /// any recorded time.
    pub fn drip<T: CallRuntime>(
        &mut self,
        caller: &CallerId,
        now: u64,
        transport: &mut T,
    ) -> (r: Result<(), FaucetError>)
        requires
            old(self).wf(),
            now >= spec_last_access(old(self)@, caller@),
        ensures
            final(self).wf(),
            final(self)@ == spec_drip_records(old(self)@, caller@, now),
            !spec_cooldown_passed(old(self)@, caller@, now) ==> r == Err::<(), FaucetError>(
                FaucetError::DripTooOften,
            ),
            spec_cooldown_passed(old(self)@, caller@, now) ==> (r == Ok::<(), FaucetError>(())
                || r == Err::<(), FaucetError>(FaucetError::TransferFailed)),
    {
        let last = self.last_access_time(caller);
        if !cooldown_passed(last, now) {
            return Err(FaucetError::DripTooOften);
        }
        self.record_access(caller, now);
        let instruction = codec::encode_transfer(0, caller, 1);
        let outcome = transport.submit_runtime_call(instruction.as_slice());
        settle_direct_outcome(outcome)
    }

    /// One dispensation request through the extension transport: the same
    /// state machine as `drip`, but the host extension encodes and dispatches
    /// the transfer itself from the asset identifier and amount.
    pub fn drip_chain_extension<E: FetchAsset>(
        &mut self,
        caller: &CallerId,
        now: u64,
        extension: &mut E,
    ) -> (r: Result<(), FaucetError>)
        requires
            old(self).wf(),
            now >= spec_last_access(old(self)@, caller@),
        ensures
            final(self).wf(),
            final(self)@ == spec_drip_records(old(self)@, caller@, now),
            !spec_cooldown_passed(old(self)@, caller@, now) ==> r == Err::<(), FaucetError>(
                FaucetError::DripTooOften,
            ),
            spec_cooldown_passed(old(self)@, caller@, now) ==> (r == Ok::<(), FaucetError>(())
                || r == Err::<(), FaucetError>(FaucetError::TransferFailed)),
    {
        let last = self.last_access_time(caller);
        if !cooldown_passed(last, now) {
            return Err(FaucetError::DripTooOften);
        }
        self.record_access(caller, now);
        let outcome = extension.transfer_token(0, 1);
        settle_extension_outcome(outcome)
    }
}

/// The cooldown decision on plain values, for hosts that keep the record
/// store themselves: the window must have elapsed in full, the boundary
/// instant included.
pub fn cooldown_passed(last_access: u64, now: u64) -> (r: bool)
    requires
        last_access <= now,
    ensures
        r == (last_access + COOLDOWN_MS <= now),
{
    now - last_access >= COOLDOWN_MS
}

/// Folds the direct transport's verdict into the service's error taxonomy:
/// acceptance is success, any rejection is `TransferFailed`.
pub fn settle_direct_outcome(outcome: Result<(), HostError>) -> (r: Result<(), FaucetError>)
    ensures
        outcome is Ok ==> r == Ok::<(), FaucetError>(()),
        outcome is Err ==> r == Err::<(), FaucetError>(FaucetError::TransferFailed),
{
    match outcome {
        Ok(()) => Ok(()),
        Err(_) => Err(FaucetError::TransferFailed),
    }
}

/// Folds the extension transport's verdict into the service's error taxonomy:
/// a reported failure is `TransferFailed`.
pub fn settle_extension_outcome(
    outcome: Result<(), FetchAssetError>,
) -> (r: Result<(), FaucetError>)
    ensures
        outcome is Ok ==> r == Ok::<(), FaucetError>(()),
        outcome is Err ==> r == Err::<(), FaucetError>(FaucetError::TransferFailed),
{
    match outcome {
        Ok(()) => Ok(()),
        Err(_) => Err(FaucetError::TransferFailed),
    }
}

/// Cooldown monotonicity: after the service records a dispensation for a
/// caller at `t1`, a second attempt at any `t2` within the cooldown window is
/// rejected and leaves the records unchanged.
pub proof fn lemma_cooldown_monotonicity(
    records: Map<Seq<u8>, u64>,
    caller: Seq<u8>,
    t1: u64,
    t2: u64,
)
    requires
        spec_cooldown_passed(records, caller, t1),
        t1 <= t2,
        t2 < t1 + COOLDOWN_MS,
    ensures
        !spec_cooldown_passed(spec_drip_records(records, caller, t1), caller, t2),
        spec_drip_records(spec_drip_records(records, caller, t1), caller, t2)
            == spec_drip_records(records, caller, t1),
{
}

/// Cooldown release: at exactly `last + COOLDOWN_MS`, or any later time, the
/// cooldown no longer rejects the caller and the attempt is recorded.
pub proof fn lemma_cooldown_release(records: Map<Seq<u8>, u64>, caller: Seq<u8>, now: u64)
    requires
        now >= spec_last_access(records, caller) + COOLDOWN_MS,
    ensures
        spec_cooldown_passed(records, caller, now),
        spec_drip_records(records, caller, now) == records.insert(caller, now),
{
}

/// Unknown-caller default: a caller the service holds no record for reads as
/// last access time `0`.
pub proof fn lemma_unknown_caller_default(records: Map<Seq<u8>, u64>, caller: Seq<u8>)
    requires
        !records.contains_key(caller),
    ensures
        spec_last_access(records, caller) == 0,
{
}

/// Consume-on-attempt: whenever the cooldown check passes, the attempt time
/// is recorded, whatever the transport later answers.
pub proof fn lemma_consume_on_attempt(records: Map<Seq<u8>, u64>, caller: Seq<u8>, now: u64)
    requires
        spec_cooldown_passed(records, caller, now),
    ensures
        spec_last_access(spec_drip_records(records, caller, now), caller) == now,
{
}

} // verus!
