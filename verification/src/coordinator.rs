//! The refresh coordinator: the per-tick state machine that throttles
//! remote fetches, discards results obtained without a valid lease, and
//! commits successful payloads to the shared store before every worker
//! re-syncs its local snapshot.
//!
//! The surrounding runtime performs the outside work — acquiring the
//! lease, issuing the bounded fetch, reading and writing the store — and
//! hands the observed values in as plain arguments; every decision about
//! them is made and proved here.
use crate::snapshot::BlockedIPs;
use crate::snapshot::spec_sync_post;
use crate::store::StoreState;
use vstd::prelude::*;

verus! {

/// Whether a tick at time `now` must attempt a fetch: always before the
/// first commit, and afterwards only once `frequency` seconds have
/// passed since the committed timestamp.
pub open spec fn spec_due(now: u64, store_last_update: Option<u64>, frequency: u64) -> bool {
    match store_last_update {
        None => true,
        Some(t) => now > t + frequency,
    }
}

pub fn refresh_due(now: u64, store_last_update: Option<u64>, frequency: u64) -> (r: bool)
    ensures
        r == spec_due(now, store_last_update, frequency),
{
    match store_last_update {
        None => true,
        Some(t) => now > t && now - t > frequency,
    }
}

/// What a completed fetch attempt amounts to once the lease has been
/// re-checked: a commit of the payload under the tick's timestamp, a
/// discarded result because the lease was lost mid-flight, or a failed
/// response that leaves the store untouched.
pub enum FetchOutcome {
    Commit { last_update: u64, data: String },
    LockLost,
    HttpError { status: u16 },
}

/// Decides the fate of a fetch that returned `status`/`body` at time
/// `now`, with `lease_valid` the ownership re-check made after the
/// response arrived.  A result obtained while not provably holding the
/// lease is never committed.
pub fn process_fetch(now: u64, lease_valid: bool, status: u16, body: &str) -> (r: FetchOutcome)
    ensures
        !lease_valid ==> r is LockLost,
        lease_valid && status == 200 ==> (r matches FetchOutcome::Commit { last_update, data }
            && last_update == now && data@ == body@),
        lease_valid && status != 200 ==> (r matches FetchOutcome::HttpError { status: s } && s
            == status),
{
    if !lease_valid {
        FetchOutcome::LockLost
    } else if status == 200 {
        FetchOutcome::Commit { last_update: now, data: body.to_owned() }
    } else {
        FetchOutcome::HttpError { status }
    }
}

/// How one tick ended, for reporting.
#[derive(Debug, PartialEq, Eq, Structural)]
pub enum TickStatus {
    Skipped,
    LockBusy,
    Committed,
    LockLost,
    FetchFailed { status: u16 },
}

/// What one tick observed of the outside world: the clock, whether the
/// non-blocking lock acquisition succeeded, the lease re-check after the
/// fetch, and the response.  The fetch fields are only meaningful when
/// the tick was due and the lock was acquired.
pub struct TickEvent {
    pub now: u64,
    pub lock_acquired: bool,
    pub lease_valid: bool,
    pub status: u16,
    pub body: Seq<char>,
}

/// The decoded shared record, at the spec level.
pub struct StoreModel {
    pub last_update: Option<u64>,
    pub data: Option<Seq<char>>,
}

pub open spec fn store_model_of(s: StoreState) -> StoreModel {
    StoreModel { last_update: s.last_update, data: s.data_view() }
}

/// The store after one tick: a commit happens exactly when the tick was
/// due, the lock was acquired, the lease survived the fetch and the
/// response was a success; everything else leaves the store unchanged.
pub open spec fn store_step(s: StoreModel, e: TickEvent, frequency: u64) -> StoreModel {
    if spec_due(e.now, s.last_update, frequency) && e.lock_acquired && e.lease_valid && e.status
        == 200 {
        StoreModel { last_update: Some(e.now), data: Some(e.body) }
    } else {
        s
    }
}

/// The store after the first `k` of a run of ticks.
pub open spec fn store_at(init: StoreModel, events: Seq<TickEvent>, frequency: u64, k: int) -> StoreModel
    decreases k,
{
    if k <= 0 {
        init
    } else {
        store_step(store_at(init, events, frequency, k - 1), events[k - 1], frequency)
    }
}

/// One full coordinator tick: check whether a refresh is due, account
/// for the fetch the runtime performed under the lock, commit a
/// successful result to the store, and always re-sync the local
/// snapshot from the store at the end.
pub fn tick(
    snapshot: &mut BlockedIPs,
    store: &mut StoreState,
    now: u64,
    frequency: u64,
    lock_acquired: bool,
    lease_valid: bool,
    status: u16,
    body: &str,
) -> (r: TickStatus)
    ensures
        !spec_due(now, old(store).last_update, frequency) ==> *final(store) == *old(store) && r
            == TickStatus::Skipped,
        spec_due(now, old(store).last_update, frequency) && !lock_acquired ==> *final(store)
            == *old(store) && r == TickStatus::LockBusy,
        spec_due(now, old(store).last_update, frequency) && lock_acquired && !lease_valid
            ==> *final(store) == *old(store) && r == TickStatus::LockLost,
        spec_due(now, old(store).last_update, frequency) && lock_acquired && lease_valid && status
            != 200 ==> *final(store) == *old(store) && r == (TickStatus::FetchFailed { status }),
        spec_due(now, old(store).last_update, frequency) && lock_acquired && lease_valid && status
            == 200 ==> final(store).last_update == Some(now) && final(store).data_view() == Some(
            body@,
        ) && r == TickStatus::Committed,
        store_model_of(*final(store)) == store_step(
            store_model_of(*old(store)),
            TickEvent { now, lock_acquired, lease_valid, status, body: body@ },
            frequency,
        ),
        spec_sync_post(
            *old(snapshot),
            *final(snapshot),
            final(store).last_update,
            final(store).data_view(),
        ),
{
    let due = refresh_due(now, store.last_update, frequency);
    let st = if !due {
        TickStatus::Skipped
    } else if !lock_acquired {
        TickStatus::LockBusy
    } else {
        match process_fetch(now, lease_valid, status, body) {
            FetchOutcome::Commit { last_update, data } => {
                store.last_update = Some(last_update);
                store.data = Some(data);
                TickStatus::Committed
            },
            FetchOutcome::LockLost => TickStatus::LockLost,
            FetchOutcome::HttpError { status } => TickStatus::FetchFailed { status },
        }
    };
    let store_data = match &store.data {
        Some(d) => Some(d.as_str()),
        None => None,
    };
    snapshot.sync(store.last_update, store_data);
    st
}

/// The refresh lock as the workers observe it: one lease cell naming the
/// current holder and when it acquired, plus the fixed lease duration.
/// The lock service keeps this cell single-valued; that exclusivity is
/// the external capability the coordinator consumes.
pub struct LockModel {
    pub holder: Option<(int, u64)>,
    pub expiration: u64,
}

/// Worker `w` holds a valid, unexpired lease at time `now`.
pub open spec fn lease_valid(l: LockModel, w: int, now: u64) -> bool {
    l.holder matches Some((h, since)) && h == w && now < since + l.expiration
}

/// At most one active fetcher: a worker is mid-fetch only while its
/// lease is valid, and two leases valid at the same instant name the
/// same worker, because both read the one holder cell.
pub proof fn lemma_single_fetcher(l: LockModel, w1: int, w2: int, now: u64)
    requires
        lease_valid(l, w1, now),
        lease_valid(l, w2, now),
    ensures
        w1 == w2,
{
}

/// A tick whose step changed the stored timestamp committed, and wrote
/// the event's clock value at a moment when the refresh was due.
proof fn lemma_committed(init: StoreModel, events: Seq<TickEvent>, frequency: u64, k: int)
    requires
        0 <= k < events.len(),
        store_at(init, events, frequency, k + 1).last_update != store_at(
            init,
            events,
            frequency,
            k,
        ).last_update,
    ensures
        store_at(init, events, frequency, k + 1).last_update == Some(events[k].now),
        spec_due(events[k].now, store_at(init, events, frequency, k).last_update, frequency),
{
    assert(store_at(init, events, frequency, k + 1) == store_step(
        store_at(init, events, frequency, k),
        events[k],
        frequency,
    ));
}

/// Once the store carries a timestamp it keeps carrying one, and the
/// value never decreases.
proof fn lemma_store_monotone(
    init: StoreModel,
    events: Seq<TickEvent>,
    frequency: u64,
    i: int,
    j: int,
)
    requires
        0 <= i <= j <= events.len(),
        store_at(init, events, frequency, i).last_update is Some,
    ensures
        store_at(init, events, frequency, j).last_update is Some,
        store_at(init, events, frequency, i).last_update->Some_0 <= store_at(
            init,
            events,
            frequency,
            j,
        ).last_update->Some_0,
    decreases j - i,
{
    if i < j {
        lemma_store_monotone(init, events, frequency, i, j - 1);
        let prev = store_at(init, events, frequency, j - 1);
        assert(store_at(init, events, frequency, j) == store_step(prev, events[j - 1], frequency));
    }
}

/// Throttling: two ticks of a run that both commit, in that order, wrote
/// timestamps more than `frequency` apart.  Successive commits to the
/// shared store are therefore never closer than the configured interval.
pub proof fn lemma_throttle(
    init: StoreModel,
    events: Seq<TickEvent>,
    frequency: u64,
    i: int,
    j: int,
)
    requires
        0 <= i < j < events.len(),
        store_at(init, events, frequency, i + 1).last_update != store_at(
            init,
            events,
            frequency,
            i,
        ).last_update,
        store_at(init, events, frequency, j + 1).last_update != store_at(
            init,
            events,
            frequency,
            j,
        ).last_update,
    ensures
        store_at(init, events, frequency, i + 1).last_update matches Some(a) && store_at(
            init,
            events,
            frequency,
            j + 1,
        ).last_update matches Some(b) && b > a + frequency,
{
    lemma_committed(init, events, frequency, i);
    lemma_committed(init, events, frequency, j);
    lemma_store_monotone(init, events, frequency, i + 1, j);
}

} // verus!
