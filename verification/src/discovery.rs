//! Discovery: the listener's bookkeeping and the cache-merge policy.
//!
//! The broadcast listener itself — a UDP socket read loop — lives outside
//! this crate. What stands here is everything the listener decides:
//! deduplication by device id with a first-seen-wins policy, the merge of
//! cached and freshly discovered records, and the cache-only lookup.

use vstd::prelude::*;

use crate::cache::{spec_cutoff, spec_fresh_devices, DeviceCache};
use crate::device::SwitcherDevice;
use crate::hexstr::str_eq;
use crate::utils::current_timestamp;

verus! {

/// Some record carries this device id.
pub open spec fn spec_devices_have_id(s: Seq<SwitcherDevice>, id: Seq<char>) -> bool {
    exists|i: int| 0 <= i < s.len() && s[i].device_id@ == id
}

/// A record list with the later duplicates dropped: each record stays
/// exactly when its id does not occur earlier in the list.
pub open spec fn spec_dedup_first(s: Seq<SwitcherDevice>) -> Seq<SwitcherDevice>
    decreases s.len(),
{
    if s.len() == 0 {
        seq![]
    } else if spec_devices_have_id(s.drop_last(), s.last().device_id@) {
        spec_dedup_first(s.drop_last())
    } else {
        spec_dedup_first(s.drop_last()).push(s.last())
    }
}

/// Deduplication keeps exactly the ids of the input and one record per id.
pub proof fn lemma_dedup_first_ids(s: Seq<SwitcherDevice>)
    ensures
        forall|id: Seq<char>|
            spec_devices_have_id(spec_dedup_first(s), id) == spec_devices_have_id(s, id),
        forall|i: int, j: int|
            0 <= i < j < spec_dedup_first(s).len() ==> spec_dedup_first(s)[i].device_id@
                != spec_dedup_first(s)[j].device_id@,
    decreases s.len(),
{
    if s.len() > 0 {
        let pre = s.drop_last();
        lemma_dedup_first_ids(pre);
        let out = spec_dedup_first(s);
        let out_pre = spec_dedup_first(pre);
        assert forall|id: Seq<char>| spec_devices_have_id(out, id) implies spec_devices_have_id(
            s,
            id,
        ) by {
            let k = choose|k: int| 0 <= k < out.len() && out[k].device_id@ == id;
            if spec_devices_have_id(pre, s.last().device_id@) {
                assert(out == out_pre);
                assert(out_pre[k].device_id@ == id);
                assert(spec_devices_have_id(pre, id));
                let i = choose|i: int| 0 <= i < pre.len() && pre[i].device_id@ == id;
                assert(s[i].device_id@ == id);
            } else {
                assert(out == out_pre.push(s.last()));
                if k == out_pre.len() {
                    assert(out[k] == s.last());
                    assert(s[s.len() - 1].device_id@ == id);
                } else {
                    assert(out[k] == out_pre[k]);
                    assert(out_pre[k].device_id@ == id);
                    assert(spec_devices_have_id(pre, id));
                    let i = choose|i: int| 0 <= i < pre.len() && pre[i].device_id@ == id;
                    assert(s[i].device_id@ == id);
                }
            }
        }
        assert forall|id: Seq<char>| spec_devices_have_id(s, id) implies spec_devices_have_id(
            out,
            id,
        ) by {
            let k = choose|k: int| 0 <= k < s.len() && s[k].device_id@ == id;
            if k < pre.len() {
                assert(pre[k].device_id@ == id);
                assert(spec_devices_have_id(pre, id));
                assert(spec_devices_have_id(out_pre, id));
                let m = choose|m: int| 0 <= m < out_pre.len() && out_pre[m].device_id@ == id;
                assert(out_pre[m] == out[m]);
            } else {
                assert(s[k] == s.last());
                if spec_devices_have_id(pre, id) {
                    let m2 = choose|m2: int| 0 <= m2 < out_pre.len() && out_pre[m2].device_id@
                        == id;
                    assert(out_pre[m2] == out[m2]);
                } else {
                    assert(out[out.len() - 1] == s.last());
                }
            }
        }
        if !spec_devices_have_id(pre, s.last().device_id@) {
            assert forall|i: int, j: int| 0 <= i < j < out.len() implies out[i].device_id@
                != out[j].device_id@ by {
                if j < out_pre.len() {
                } else {
                    assert(out[j] == s.last());
                    assert(out[i] == out_pre[i]);
                    assert(spec_devices_have_id(out_pre, out[i].device_id@));
                    assert(spec_devices_have_id(pre, out[i].device_id@));
                }
            }
        }
    }
}

/// The records a discovery window has collected, one per device id.
#[derive(Debug)]
pub struct DiscoveredDevices {
    pub devices: Vec<SwitcherDevice>,
}

impl DiscoveredDevices {
    /// One record per device id.
    pub open spec fn wf(&self) -> bool {
        forall|i: int, j: int|
            0 <= i < j < self.devices@.len() ==> self.devices@[i].device_id@ != self.devices@[j]
                .device_id@
    }

    /// An empty collection.
    pub fn new() -> (r: Self)
        ensures
            r.devices@.len() == 0,
            r.wf(),
    {
        DiscoveredDevices { devices: Vec::new() }
    }

    /// Whether a record with this id was already collected.
    pub fn contains_id(&self, id: &str) -> (r: bool)
        ensures
            r == spec_devices_have_id(self.devices@, id@),
    {
        let n = self.devices.len();
        let mut i: usize = 0;
        while i < n
            invariant
                n == self.devices@.len(),
                i <= n,
                forall|j: int| 0 <= j < i ==> self.devices@[j].device_id@ != id@,
            decreases n - i,
        {
            if str_eq(self.devices[i].device_id.as_str(), id) {
                return true;
            }
            i += 1;
        }
        false
    }

    /// Records a device unless its id was already seen: first seen wins.
    ///
    /// A broadcast from an id already in the collection changes nothing —
    /// not even when its other fields differ — and reports `false`; a new
    /// id is appended and reports `true`.
    pub fn insert_or_skip(&mut self, device: SwitcherDevice) -> (r: bool)
        requires
            old(self).wf(),
        ensures
            final(self).wf(),
            r == !spec_devices_have_id(old(self).devices@, device.device_id@),
            !r ==> *final(self) == *old(self),
            r ==> final(self).devices@ =~= old(self).devices@.push(device),
    {
        if self.contains_id(device.device_id.as_str()) {
            false
        } else {
            self.devices.push(device);
            true
        }
    }

    /// How many records were collected.
    pub fn len(&self) -> (r: usize)
        ensures
            r == self.devices@.len(),
    {
        self.devices.len()
    }

    /// The collected records, in first-seen order, consuming the
    /// collection.
    pub fn into_devices(self) -> (r: Vec<SwitcherDevice>)
        ensures
            r@ == self.devices@,
    {
        self.devices
    }
}

/// Merges freshly discovered records with cached ones: a discovered record
/// wins over a cached record with the same id, and within each list the
/// first record per id wins.
pub fn merge_discovered(discovered: &Vec<SwitcherDevice>, cached: &Vec<SwitcherDevice>) -> (r: Vec<
    SwitcherDevice,
>)
    ensures
        r@ =~= spec_dedup_first(discovered@ + cached@),
{
    let ghost all = discovered@ + cached@;
    let mut out = DiscoveredDevices::new();
    let n1 = discovered.len();
    let mut i: usize = 0;
    while i < n1
        invariant
            n1 == discovered@.len(),
            i <= n1,
            out.wf(),
            out.devices@ =~= spec_dedup_first(discovered@.take(i as int)),
        decreases n1 - i,
    {
        proof {
            assert(discovered@.take(i + 1).drop_last() =~= discovered@.take(i as int));
            assert(discovered@.take(i + 1).last() == discovered@[i as int]);
            lemma_dedup_first_ids(discovered@.take(i as int));
        }
        out.insert_or_skip(discovered[i].clone());
        i += 1;
    }
    proof {
        assert(discovered@.take(n1 as int) =~= discovered@);
        assert(all.take(n1 as int) =~= discovered@);
    }
    let n2 = cached.len();
    let mut j: usize = 0;
    while j < n2
        invariant
            n1 == discovered@.len(),
            n2 == cached@.len(),
            j <= n2,
            all == discovered@ + cached@,
            out.wf(),
            out.devices@ =~= spec_dedup_first(all.take((n1 + j) as int)),
        decreases n2 - j,
    {
        proof {
            assert(all.take((n1 + j + 1) as int).drop_last() =~= all.take((n1 + j) as int));
            assert(all.take((n1 + j + 1) as int).last() == cached@[j as int]);
            lemma_dedup_first_ids(all.take((n1 + j) as int));
        }
        out.insert_or_skip(cached[j].clone());
        j += 1;
    }
    proof {
        assert(all.take((n1 + n2) as int) =~= all);
    }
    out.into_devices()
}

/// Discovery policy: whether and how long cached records may stand in for
/// fresh broadcasts.
#[derive(Debug)]
pub struct SwitcherDiscovery {
    pub use_cache: bool,
    pub cache_max_age: u64,
}

impl SwitcherDiscovery {
    /// The default policy: cached records count for up to an hour.
    pub fn new() -> (r: Self)
        ensures
            r.use_cache == true,
            r.cache_max_age == 3600,
    {
        SwitcherDiscovery { use_cache: true, cache_max_age: 3600 }
    }

    /// An explicit policy.
    pub fn with_cache_settings(use_cache: bool, cache_max_age: u64) -> (r: Self)
        ensures
            r.use_cache == use_cache,
            r.cache_max_age == cache_max_age,
    {
        SwitcherDiscovery { use_cache, cache_max_age }
    }

    /// No cached records at all.
    pub fn without_cache() -> (r: Self)
        ensures
            r.use_cache == false,
            r.cache_max_age == 0,
    {
        SwitcherDiscovery { use_cache: false, cache_max_age: 0 }
    }

    /// The devices a cache-only discovery yields at a given clock reading:
    /// nothing when the cache is disabled, otherwise every record fresh
    /// within the policy's age bound.
    pub fn discover_from_cache_only_at(&self, cache: &DeviceCache, now: u64) -> (r: Vec<
        SwitcherDevice,
    >)
        ensures
            !self.use_cache ==> r@.len() == 0,
            self.use_cache ==> r@ =~= spec_fresh_devices(
                cache.devices@,
                spec_cutoff(now, self.cache_max_age),
            ),
    {
        if !self.use_cache {
            return Vec::new();
        }
        cache.get_fresh_devices_at(self.cache_max_age, now)
    }

    /// The devices a cache-only discovery yields at the current clock
    /// reading.
    pub fn discover_from_cache_only(&self, cache: &DeviceCache) -> (r: Vec<SwitcherDevice>)
        ensures
            !self.use_cache ==> r@.len() == 0,
            self.use_cache ==> exists|now: u64|
                r@ =~= spec_fresh_devices(cache.devices@, spec_cutoff(now, self.cache_max_age)),
    {
        let now = current_timestamp();
        let r = self.discover_from_cache_only_at(cache, now);
        proof {
            if self.use_cache {
                assert(r@ =~= spec_fresh_devices(
                    cache.devices@,
                    spec_cutoff(now, self.cache_max_age),
                ));
            }
        }
        r
    }
}

} // verus!
