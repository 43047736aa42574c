//! The discovered-device cache: records keyed by device id with a
//! last-seen time and a sighting count.
//!
//! The cache itself is pure bookkeeping; reading and writing it to disk is
//! a collaborator's job outside this crate. Entries are kept in a vector
//! whose well-formedness — one entry per device id — every operation
//! preserves. Operations that stamp the current time come in two forms: one
//! that takes the clock reading as an argument and says exactly what it
//! does with it, and the original form that reads the clock itself.

use vstd::prelude::*;

use crate::device::SwitcherDevice;
use crate::hexstr::str_eq;
use crate::utils::current_timestamp;

verus! {

/// One cache entry: a device record plus when and how often it was seen.
#[derive(Debug)]
pub struct CachedDevice {
    pub device: SwitcherDevice,
    pub last_seen: u64,
    /// How often the device has been sighted; saturates at its maximum
    /// rather than wrapping, so recording a sighting never panics.
    pub discovery_count: u32,
}

impl Clone for CachedDevice {
    fn clone(&self) -> (r: Self)
        ensures
            r == *self,
    {
        CachedDevice {
            device: self.device.clone(),
            last_seen: self.last_seen,
            discovery_count: self.discovery_count,
        }
    }
}

/// The device cache: at most one entry per device id.
#[derive(Debug)]
pub struct DeviceCache {
    pub devices: Vec<CachedDevice>,
    pub last_updated: u64,
}

/// Some entry carries this device id.
pub open spec fn spec_cache_has_id(s: Seq<CachedDevice>, id: Seq<char>) -> bool {
    exists|i: int| 0 <= i < s.len() && s[i].device.device_id@ == id
}

/// The sighting count after one more sighting; pinned at its maximum rather
/// than wrapping.
pub open spec fn spec_bump(c: u32) -> u32 {
    if c < u32::MAX {
        (c + 1) as u32
    } else {
        c
    }
}

/// The cutoff below which a last-seen time counts as stale.
pub open spec fn spec_cutoff(now: u64, max_age: u64) -> u64 {
    if now >= max_age {
        (now - max_age) as u64
    } else {
        0
    }
}

/// A sighting entry as it is (re)inserted: the fresh record, stamped now.
pub open spec fn spec_sighting(device: SwitcherDevice, now: u64, count: u32) -> CachedDevice {
    CachedDevice { device, last_seen: now, discovery_count: count }
}

/// The cache contents after recording one sighting: the first entry with
/// the device's id is replaced and its count bumped; without one, a new
/// entry with count 1 is appended.
pub open spec fn spec_add_entry(s: Seq<CachedDevice>, device: SwitcherDevice, now: u64) -> Seq<
    CachedDevice,
>
    decreases s.len(),
{
    if s.len() == 0 {
        seq![spec_sighting(device, now, 1)]
    } else if s.first().device.device_id@ == device.device_id@ {
        seq![spec_sighting(device, now, spec_bump(s.first().discovery_count))] + s.drop_first()
    } else {
        seq![s.first()] + spec_add_entry(s.drop_first(), device, now)
    }
}

/// With the device already present at (first) position `i`, recording a
/// sighting is an update at `i`.
proof fn lemma_add_entry_update(s: Seq<CachedDevice>, device: SwitcherDevice, now: u64, i: int)
    requires
        0 <= i < s.len(),
        s[i].device.device_id@ == device.device_id@,
        forall|j: int| 0 <= j < i ==> s[j].device.device_id@ != device.device_id@,
    ensures
        spec_add_entry(s, device, now) =~= s.update(
            i,
            spec_sighting(device, now, spec_bump(s[i].discovery_count)),
        ),
    decreases i,
{
    if i == 0 {
        assert(spec_add_entry(s, device, now) =~= s.update(
            0,
            spec_sighting(device, now, spec_bump(s[0].discovery_count)),
        ));
    } else {
        lemma_add_entry_update(s.drop_first(), device, now, i - 1);
        assert(s.update(i, spec_sighting(device, now, spec_bump(s[i].discovery_count))) =~= seq![
            s.first(),
        ] + s.drop_first().update(
            i - 1,
            spec_sighting(device, now, spec_bump(s.drop_first()[i - 1].discovery_count)),
        ));
    }
}

/// With the device absent, recording a sighting is an append.
proof fn lemma_add_entry_push(s: Seq<CachedDevice>, device: SwitcherDevice, now: u64)
    requires
        !spec_cache_has_id(s, device.device_id@),
    ensures
        spec_add_entry(s, device, now) =~= s.push(spec_sighting(device, now, 1)),
    decreases s.len(),
{
    if s.len() > 0 {
        assert(s[0].device.device_id@ != device.device_id@);
        assert forall|j: int| 0 <= j < s.drop_first().len() implies s.drop_first()[j]
            .device.device_id@ != device.device_id@ by {
            assert(s.drop_first()[j] == s[j + 1]);
        }
        lemma_add_entry_push(s.drop_first(), device, now);
        assert(s.push(spec_sighting(device, now, 1)) =~= seq![s.first()] + s.drop_first().push(
            spec_sighting(device, now, 1),
        ));
    }
}

/// The devices of the entries seen at or after the cutoff, in order.
pub open spec fn spec_fresh_devices(s: Seq<CachedDevice>, cutoff: u64) -> Seq<SwitcherDevice>
    decreases s.len(),
{
    if s.len() == 0 {
        seq![]
    } else {
        spec_fresh_devices(s.drop_last(), cutoff) + if s.last().last_seen >= cutoff {
            seq![s.last().device]
        } else {
            seq![]
        }
    }
}

/// The entries seen at or after the cutoff, in order.
pub open spec fn spec_fresh_entries(s: Seq<CachedDevice>, cutoff: u64) -> Seq<CachedDevice>
    decreases s.len(),
{
    if s.len() == 0 {
        seq![]
    } else {
        spec_fresh_entries(s.drop_last(), cutoff) + if s.last().last_seen >= cutoff {
            seq![s.last()]
        } else {
            seq![]
        }
    }
}

/// Keeping only fresh entries keeps no id that was absent, and keeps the
/// one-entry-per-id shape.
proof fn lemma_fresh_entries_wf(s: Seq<CachedDevice>, cutoff: u64)
    requires
        forall|i: int, j: int|
            0 <= i < j < s.len() ==> s[i].device.device_id@ != s[j].device.device_id@,
    ensures
        forall|id: Seq<char>|
            spec_cache_has_id(spec_fresh_entries(s, cutoff), id) ==> spec_cache_has_id(s, id),
        forall|i: int, j: int|
            0 <= i < j < spec_fresh_entries(s, cutoff).len() ==> spec_fresh_entries(s, cutoff)[i]
                .device.device_id@ != spec_fresh_entries(s, cutoff)[j].device.device_id@,
    decreases s.len(),
{
    if s.len() > 0 {
        let pre = s.drop_last();
        lemma_fresh_entries_wf(pre, cutoff);
        let kept = spec_fresh_entries(s, cutoff);
        let kept_pre = spec_fresh_entries(pre, cutoff);
        assert forall|id: Seq<char>| spec_cache_has_id(kept, id) implies spec_cache_has_id(
            s,
            id,
        ) by {
            let k = choose|k: int| 0 <= k < kept.len() && kept[k].device.device_id@ == id;
            if s.last().last_seen >= cutoff && k == kept_pre.len() {
                assert(kept[k] == s.last());
                assert(s[s.len() - 1].device.device_id@ == id);
            } else {
                if s.last().last_seen < cutoff {
                    assert(kept =~= kept_pre);
                }
                assert(kept[k] == kept_pre[k]);
                assert(spec_cache_has_id(kept_pre, id));
                assert(spec_cache_has_id(pre, id));
                let i = choose|i: int| 0 <= i < pre.len() && pre[i].device.device_id@ == id;
                assert(pre[i] == s[i]);
                assert(s[i].device.device_id@ == id);
            }
        }
        if s.last().last_seen >= cutoff {
            assert forall|i: int, j: int| 0 <= i < j < kept.len() implies kept[i].device.device_id@
                != kept[j].device.device_id@ by {
                if j < kept_pre.len() {
                } else {
                    assert(kept[j] == s.last());
                    assert(kept[i] == kept_pre[i]);
                    assert(spec_cache_has_id(kept_pre, kept[i].device.device_id@));
                    assert(spec_cache_has_id(pre, kept[i].device.device_id@));
                    let m = choose|m: int|
                        0 <= m < pre.len() && pre[m].device.device_id@ == kept[i].device.device_id@;
                    assert(pre[m] == s[m]);
                    assert(s[m].device.device_id@ == kept[i].device.device_id@);
                }
            }
        } else {
            assert(kept =~= kept_pre);
        }
    }
}

impl DeviceCache {
    /// One entry per device id.
    pub open spec fn wf(&self) -> bool {
        forall|i: int, j: int|
            0 <= i < j < self.devices@.len() ==> self.devices@[i].device.device_id@
                != self.devices@[j].device.device_id@
    }

    /// An empty cache stamped with the current time.
    pub fn new() -> (r: Self)
        ensures
            r.devices@.len() == 0,
            r.wf(),
    {
        DeviceCache { devices: Vec::new(), last_updated: current_timestamp() }
    }

    /// The position of the first entry for this id, if any.
    fn find_index(&self, id: &String) -> (r: Option<usize>)
        ensures
            r matches Some(i) ==> {
                &&& i < self.devices@.len()
                &&& self.devices@[i as int].device.device_id@ == id@
                &&& forall|j: int| 0 <= j < i ==> self.devices@[j].device.device_id@ != id@
            },
            r is None ==> !spec_cache_has_id(self.devices@, id@),
    {
        let n = self.devices.len();
        let mut i: usize = 0;
        while i < n
            invariant
                n == self.devices@.len(),
                i <= n,
                forall|j: int| 0 <= j < i ==> self.devices@[j].device.device_id@ != id@,
            decreases n - i,
        {
            if str_eq(self.devices[i].device.device_id.as_str(), id.as_str()) {
                return Some(i);
            }
            i += 1;
        }
        None
    }

    /// Records a sighting at a given clock reading.
    ///
    /// A device already in the cache has its record replaced, its last-seen
    /// time stamped and its sighting count bumped; a new device is appended
    /// with a count of one. Either way the update stamp is set and the
    /// one-entry-per-id shape is kept.
    pub fn add_device_at(&mut self, device: SwitcherDevice, now: u64)
        requires
            old(self).wf(),
        ensures
            final(self).wf(),
            final(self).last_updated == now,
            final(self).devices@ =~= spec_add_entry(old(self).devices@, device, now),
    {
        let ghost pre = self.devices@;
        match self.find_index(&device.device_id) {
            Some(i) => {
                let count = self.devices[i].discovery_count;
                let bumped = if count < u32::MAX {
                    count + 1
                } else {
                    count
                };
                proof {
                    lemma_add_entry_update(pre, device, now, i as int);
                }
                self.devices[i] = CachedDevice { device, last_seen: now, discovery_count: bumped };
                proof {
                    assert forall|k: int| 0 <= k < self.devices@.len() implies self.devices@[k]
                        .device.device_id@ == pre[k].device.device_id@ by {}
                }
            },
            None => {
                proof {
                    lemma_add_entry_push(pre, device, now);
                }
                self.devices.push(CachedDevice { device, last_seen: now, discovery_count: 1 });
            },
        }
        self.last_updated = now;
    }

    /// Records a sighting at the current clock reading: for some clock
    /// value, the cache looks exactly like a sighting recorded at it.
    pub fn add_device(&mut self, device: SwitcherDevice)
        requires
            old(self).wf(),
        ensures
            final(self).wf(),
            exists|now: u64|
                final(self).last_updated == now && final(self).devices@ =~= spec_add_entry(
                    old(self).devices@,
                    device,
                    now,
                ),
    {
        let now = current_timestamp();
        let ghost pre = self.devices@;
        self.add_device_at(device, now);
        proof {
            assert(self.last_updated == now && self.devices@ =~= spec_add_entry(pre, device, now));
        }
    }

    /// The devices seen within `max_age` seconds of the given clock
    /// reading, in cache order.
    pub fn get_fresh_devices_at(&self, max_age_seconds: u64, now: u64) -> (r: Vec<SwitcherDevice>)
        ensures
            r@ =~= spec_fresh_devices(self.devices@, spec_cutoff(now, max_age_seconds)),
    {
        let cutoff = if now >= max_age_seconds {
            now - max_age_seconds
        } else {
            0
        };
        let n = self.devices.len();
        let mut out: Vec<SwitcherDevice> = Vec::new();
        let mut i: usize = 0;
        while i < n
            invariant
                n == self.devices@.len(),
                i <= n,
                cutoff == spec_cutoff(now, max_age_seconds),
                out@ =~= spec_fresh_devices(self.devices@.take(i as int), cutoff),
            decreases n - i,
        {
            proof {
                assert(self.devices@.take(i + 1).drop_last() =~= self.devices@.take(i as int));
                assert(self.devices@.take(i + 1).last() == self.devices@[i as int]);
            }
            if self.devices[i].last_seen >= cutoff {
                out.push(self.devices[i].device.clone());
            }
            i += 1;
        }
        proof {
            assert(self.devices@.take(n as int) =~= self.devices@);
        }
        out
    }

    /// The devices seen within `max_age` seconds of now, in cache order.
    pub fn get_fresh_devices(&self, max_age_seconds: u64) -> (r: Vec<SwitcherDevice>)
        ensures
            exists|now: u64|
                r@ =~= spec_fresh_devices(self.devices@, spec_cutoff(now, max_age_seconds)),
    {
        let now = current_timestamp();
        let r = self.get_fresh_devices_at(max_age_seconds, now);
        proof {
            assert(r@ =~= spec_fresh_devices(self.devices@, spec_cutoff(now, max_age_seconds)));
        }
        r
    }

    /// Drops every entry older than `max_age` seconds at the given clock
    /// reading and stamps the update time.
    pub fn remove_old_devices_at(&mut self, max_age_seconds: u64, now: u64)
        requires
            old(self).wf(),
        ensures
            final(self).wf(),
            final(self).last_updated == now,
            final(self).devices@ =~= spec_fresh_entries(
                old(self).devices@,
                spec_cutoff(now, max_age_seconds),
            ),
    {
        let cutoff = if now >= max_age_seconds {
            now - max_age_seconds
        } else {
            0
        };
        let n = self.devices.len();
        let mut kept: Vec<CachedDevice> = Vec::new();
        let mut i: usize = 0;
        while i < n
            invariant
                n == self.devices@.len(),
                i <= n,
                cutoff == spec_cutoff(now, max_age_seconds),
                kept@ =~= spec_fresh_entries(self.devices@.take(i as int), cutoff),
            decreases n - i,
        {
            proof {
                assert(self.devices@.take(i + 1).drop_last() =~= self.devices@.take(i as int));
                assert(self.devices@.take(i + 1).last() == self.devices@[i as int]);
            }
            if self.devices[i].last_seen >= cutoff {
                kept.push(self.devices[i].clone());
            }
            i += 1;
        }
        proof {
            assert(self.devices@.take(n as int) =~= self.devices@);
            lemma_fresh_entries_wf(self.devices@, cutoff);
        }
        self.devices = kept;
        self.last_updated = now;
    }

    /// Drops every entry older than `max_age` seconds and stamps the update
    /// time with the current clock.
    pub fn remove_old_devices(&mut self, max_age_seconds: u64)
        requires
            old(self).wf(),
        ensures
            final(self).wf(),
            exists|now: u64|
                final(self).last_updated == now && final(self).devices@ =~= spec_fresh_entries(
                    old(self).devices@,
                    spec_cutoff(now, max_age_seconds),
                ),
    {
        let now = current_timestamp();
        let ghost pre = self.devices@;
        self.remove_old_devices_at(max_age_seconds, now);
        proof {
            assert(self.last_updated == now && self.devices@ =~= spec_fresh_entries(
                pre,
                spec_cutoff(now, max_age_seconds),
            ));
        }
    }

    /// How many devices the cache holds.
    pub fn len(&self) -> (r: usize)
        ensures
            r == self.devices@.len(),
    {
        self.devices.len()
    }

    /// Whether the cache holds an entry for this device id.
    pub fn contains_device(&self, device_id: &String) -> (r: bool)
        ensures
            r == spec_cache_has_id(self.devices@, device_id@),
    {
        match self.find_index(device_id) {
            Some(_) => true,
            None => false,
        }
    }
}

impl Clone for DeviceCache {
    fn clone(&self) -> (r: Self)
        ensures
            r.devices@ =~= self.devices@,
            r.last_updated == self.last_updated,
    {
        let n = self.devices.len();
        let mut devices: Vec<CachedDevice> = Vec::new();
        let mut i: usize = 0;
        while i < n
            invariant
                n == self.devices@.len(),
                i <= n,
                devices@ =~= self.devices@.take(i as int),
            decreases n - i,
        {
            devices.push(self.devices[i].clone());
            proof {
                assert(self.devices@.take(i + 1) =~= self.devices@.take(i as int).push(
                    self.devices@[i as int],
                ));
            }
            i += 1;
        }
        proof {
            assert(self.devices@.take(n as int) =~= self.devices@);
        }
        DeviceCache { devices, last_updated: self.last_updated }
    }
}

} // verus!
