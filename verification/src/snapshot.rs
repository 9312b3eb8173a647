//! The per-worker local snapshot of the blocked list.
//!
//! Each worker keeps the current `RangeSet` in memory together with the
//! shared-store timestamp it was built from, so that request evaluation
//! never touches the shared store or the refresh lock.  Until the first
//! successful sync the evaluator fails open: every request is allowed.
use crate::parse::first_token;
use crate::parse::parse_ipv4;
use crate::parse::spec_parse_ipv4;
use crate::parse::split_str;
use crate::range::RangeSet;
use crate::range::blocked_by;
use crate::range::text_prefixes;
use vstd::prelude::*;

verus! {

/// A worker's in-memory view of the blocked list.
pub struct BlockedIPs {
    range: RangeSet,
    update: Option<u64>,
}

/// The allow/deny policy of the request evaluator: allow while no sync
/// has ever succeeded, allow when the address does not parse as IPv4,
/// and otherwise allow exactly the addresses no blocked prefix covers.
pub open spec fn spec_allowed(s: BlockedIPs, ip: Seq<char>) -> bool {
    ||| s.spec_update() is None
    ||| match spec_parse_ipv4(ip) {
        None => true,
        Some(a) => !blocked_by(s.spec_prefixes(), a),
    }
}

/// How a snapshot changes when synced against store values `lu`/`data`:
/// a missing timestamp, an unchanged timestamp or a missing payload
/// leave it untouched; otherwise it is rebuilt from the payload.
pub open spec fn spec_sync_post(
    pre: BlockedIPs,
    post: BlockedIPs,
    lu: Option<u64>,
    data: Option<Seq<char>>,
) -> bool {
    if lu is Some && lu != pre.spec_update() && data is Some {
        post.spec_update() == lu && post.spec_prefixes() == text_prefixes(data->Some_0)
    } else {
        post == pre
    }
}

impl BlockedIPs {
    pub closed spec fn spec_prefixes(self) -> Set<(u32, u32)> {
        self.range.prefixes()
    }

    pub closed spec fn spec_update(self) -> Option<u64> {
        self.update
    }

    /// A fresh snapshot: no data observed yet, everything allowed.
    pub fn new() -> (r: BlockedIPs)
        ensures
            r.spec_update() is None,
    {
        BlockedIPs { range: RangeSet::build(""), update: None }
    }

    /// Replaces the blocked ranges with those parsed from `ips` and
    /// records the store timestamp the text was fetched under.
    pub fn update(&mut self, update_time: u64, ips: &str)
        ensures
            final(self).spec_update() == Some(update_time),
            final(self).spec_prefixes() == text_prefixes(ips@),
    {
        self.range = RangeSet::build(ips);
        self.update = Some(update_time);
    }

    /// True when `ip` may pass: before any successful sync every input is
    /// allowed; afterwards an address is refused exactly when it parses
    /// as IPv4 and a blocked prefix covers it.
    pub fn allowed(&self, ip: &str) -> (r: bool)
        ensures
            r == spec_allowed(*self, ip@),
            self.spec_update() is None ==> r,
    {
        match self.update {
            None => true,
            Some(_) => match parse_ipv4(ip) {
                None => true,
                Some(a) => !self.range.contains(a),
            },
        }
    }

    /// Applies `allowed` to the first comma-separated value of a request
    /// attribute, which may carry a chain of addresses.
    pub fn is_allowed(&self, client_value: &str) -> (r: bool)
        ensures
            r == spec_allowed(*self, first_token(client_value@)),
            self.spec_update() is None ==> r,
    {
        let parts = split_str(client_value, ',');
        proof {
            assert(parts@[0]@ == first_token(client_value@));
        }
        self.allowed(parts[0].as_str())
    }

    /// The store timestamp of the most recent successful sync, if any.
    pub fn last_update(&self) -> (r: Option<u64>)
        ensures
            r == self.spec_update(),
    {
        self.update
    }

    /// Brings the snapshot up to date against the store values read this
    /// tick.  Returns whether anything changed; re-running it with an
    /// unchanged store timestamp never mutates the snapshot.
    pub fn sync(&mut self, store_last_update: Option<u64>, store_data: Option<&str>) -> (updated:
        bool)
        ensures
            updated == (store_last_update is Some && store_last_update != old(
                self,
            ).spec_update() && store_data is Some),
            spec_sync_post(
                *old(self),
                *final(self),
                store_last_update,
                match store_data {
                    Some(d) => Some(d@),
                    None => None,
                },
            ),
    {
        match store_last_update {
            None => false,
            Some(t) => {
                let same = match self.update {
                    Some(o) => o == t,
                    None => false,
                };
                if same {
                    false
                } else {
                    match store_data {
                        None => false,
                        Some(d) => {
                            self.update(t, d);
                            true
                        },
                    }
                }
            },
        }
    }
}

/// A snapshot reflects the store pair `(t, d)` when its timestamp is `t`
/// and its ranges are those parsed from `d`.
pub open spec fn reflects(s: BlockedIPs, t: u64, d: Seq<char>) -> bool {
    s.spec_update() == Some(t) && s.spec_prefixes() == text_prefixes(d)
}

/// Convergence: workers whose snapshots reflect the same store pair
/// agree on the observed timestamp and on every allow/deny decision.
pub proof fn lemma_convergence(a: BlockedIPs, b: BlockedIPs, t: u64, d: Seq<char>)
    requires
        reflects(a, t, d),
        reflects(b, t, d),
    ensures
        a.spec_update() == b.spec_update(),
        forall|ip: Seq<char>| spec_allowed(a, ip) == spec_allowed(b, ip),
{
}

/// A sync against a store pair `(t, d)` leaves the snapshot reflecting
/// it, provided a snapshot that had already observed `t` was built from
/// the payload committed with `t` — which holds because the store's two
/// keys are only ever written together by the lock holder.
pub proof fn lemma_sync_reflects(pre: BlockedIPs, post: BlockedIPs, t: u64, d: Seq<char>)
    requires
        spec_sync_post(pre, post, Some(t), Some(d)),
        pre.spec_update() == Some(t) ==> reflects(pre, t, d),
    ensures
        reflects(post, t, d),
{
}

} // verus!
