//! Alias pairing: friendly names for devices, with both directions unique.
//!
//! A paired device couples a device record with an alias; no two entries
//! share a device id and no two share an alias. As with the cache, storage
//! is a collaborator's job outside this crate, and the time-stamping
//! operations come in a clock-argument form with an exact contract and the
//! original form that reads the clock itself.

use vstd::prelude::*;

use crate::device::SwitcherDevice;
use crate::hexstr::str_eq;
use crate::utils::current_timestamp;

verus! {

/// Why a pairing operation failed.
#[derive(Debug, Clone, Copy, PartialEq, Eq, Structural)]
pub enum PairingError {
    /// The requested alias already names a device.
    AliasInUse,
    /// No paired device carries the requested alias.
    AliasNotFound,
}

impl PairingError {
    /// A fixed human-readable description of the failure.
    pub fn message(&self) -> (r: &'static str)
        ensures
            *self == PairingError::AliasInUse ==> r@ == "alias is already in use"@,
            *self == PairingError::AliasNotFound ==> r@ == "no device found with that alias"@,
    {
        match self {
            PairingError::AliasInUse => "alias is already in use",
            PairingError::AliasNotFound => "no device found with that alias",
        }
    }
}

/// One paired device: the record, its alias, and when it was paired and
/// last sighted.
#[derive(Debug)]
pub struct PairedDevice {
    pub device: SwitcherDevice,
    pub alias: String,
    pub paired_at: u64,
    pub last_seen: u64,
}

impl Clone for PairedDevice {
    fn clone(&self) -> (r: Self)
        ensures
            r == *self,
    {
        PairedDevice {
            device: self.device.clone(),
            alias: self.alias.clone(),
            paired_at: self.paired_at,
            last_seen: self.last_seen,
        }
    }
}

/// The pairing table: unique device ids, unique aliases.
#[derive(Debug)]
pub struct PairingConfig {
    pub devices: Vec<PairedDevice>,
    pub last_updated: u64,
}

/// Some entry carries this device id.
pub open spec fn spec_pairing_has_id(s: Seq<PairedDevice>, id: Seq<char>) -> bool {
    exists|i: int| 0 <= i < s.len() && s[i].device.device_id@ == id
}

/// Some entry carries this alias.
pub open spec fn spec_pairing_has_alias(s: Seq<PairedDevice>, alias: Seq<char>) -> bool {
    exists|i: int| 0 <= i < s.len() && s[i].alias@ == alias
}

/// The table after pairing a device whose alias is not yet in use: the
/// first entry with the same device id is replaced (its old alias falls
/// away), or a new entry is appended.
pub open spec fn spec_pair_entry(
    s: Seq<PairedDevice>,
    device: SwitcherDevice,
    alias: Seq<char>,
    entry: PairedDevice,
) -> Seq<PairedDevice>
    decreases s.len(),
{
    if s.len() == 0 {
        seq![entry]
    } else if s.first().device.device_id@ == device.device_id@ {
        seq![entry] + s.drop_first()
    } else {
        seq![s.first()] + spec_pair_entry(s.drop_first(), device, alias, entry)
    }
}

/// The table after unpairing the first entry with this alias.
pub open spec fn spec_unpair_entry(s: Seq<PairedDevice>, alias: Seq<char>) -> Seq<PairedDevice>
    decreases s.len(),
{
    if s.len() == 0 {
        seq![]
    } else if s.first().alias@ == alias {
        s.drop_first()
    } else {
        seq![s.first()] + spec_unpair_entry(s.drop_first(), alias)
    }
}

/// The table after refreshing the record and sighting time of the entry
/// with this device's id; entries without that id are untouched.
pub open spec fn spec_refresh_entry(s: Seq<PairedDevice>, device: SwitcherDevice, now: u64) -> Seq<
    PairedDevice,
>
    decreases s.len(),
{
    if s.len() == 0 {
        seq![]
    } else if s.first().device.device_id@ == device.device_id@ {
        seq![
            PairedDevice {
                device,
                alias: s.first().alias,
                paired_at: s.first().paired_at,
                last_seen: now,
            },
        ] + s.drop_first()
    } else {
        seq![s.first()] + spec_refresh_entry(s.drop_first(), device, now)
    }
}

impl PairingConfig {
    /// Unique device ids and unique aliases.
    pub open spec fn wf(&self) -> bool {
        &&& forall|i: int, j: int|
            0 <= i < j < self.devices@.len() ==> self.devices@[i].device.device_id@
                != self.devices@[j].device.device_id@
        &&& forall|i: int, j: int|
            0 <= i < j < self.devices@.len() ==> self.devices@[i].alias@
                != self.devices@[j].alias@
    }

    /// An empty table stamped with the current time.
    pub fn new() -> (r: Self)
        ensures
            r.devices@.len() == 0,
            r.wf(),
    {
        PairingConfig { devices: Vec::new(), last_updated: current_timestamp() }
    }

    /// The position of the first entry with this device id, if any.
    fn find_by_id(&self, id: &String) -> (r: Option<usize>)
        ensures
            r matches Some(i) ==> {
                &&& i < self.devices@.len()
                &&& self.devices@[i as int].device.device_id@ == id@
                &&& forall|j: int| 0 <= j < i ==> self.devices@[j].device.device_id@ != id@
            },
            r is None ==> !spec_pairing_has_id(self.devices@, id@),
    {
        let n = self.devices.len();
        let mut i: usize = 0;
        while i < n
            invariant
                n == self.devices@.len(),
                i <= n,
                forall|j: int| 0 <= j < i ==> self.devices@[j].device.device_id@ != id@,
            decreases n - i,
        {
            if str_eq(self.devices[i].device.device_id.as_str(), id.as_str()) {
                return Some(i);
            }
            i += 1;
        }
        None
    }

    /// The position of the first entry with this alias, if any.
    fn find_by_alias(&self, alias: &str) -> (r: Option<usize>)
        ensures
            r matches Some(i) ==> {
                &&& i < self.devices@.len()
                &&& self.devices@[i as int].alias@ == alias@
                &&& forall|j: int| 0 <= j < i ==> self.devices@[j].alias@ != alias@
            },
            r is None ==> !spec_pairing_has_alias(self.devices@, alias@),
    {
        let n = self.devices.len();
        let mut i: usize = 0;
        while i < n
            invariant
                n == self.devices@.len(),
                i <= n,
                forall|j: int| 0 <= j < i ==> self.devices@[j].alias@ != alias@,
            decreases n - i,
        {
            if str_eq(self.devices[i].alias.as_str(), alias) {
                return Some(i);
            }
            i += 1;
        }
        None
    }

    /// Pairs a device under an alias at a given clock reading.
    ///
    /// An alias already in use is refused outright. Otherwise a device
    /// already paired is re-paired: its entry is replaced and its old alias
    /// falls away; a new device is appended. Both uniqueness invariants are
    /// kept.
    pub fn pair_device_at(&mut self, device: SwitcherDevice, alias: String, now: u64) -> (r:
        Result<(), PairingError>)
        requires
            old(self).wf(),
        ensures
            final(self).wf(),
            r is Ok <==> !spec_pairing_has_alias(old(self).devices@, alias@),
            r matches Err(e) ==> e == PairingError::AliasInUse && *final(self) == *old(self),
            r is Ok ==> {
                &&& final(self).last_updated == now
                &&& final(self).devices@ =~= spec_pair_entry(
                    old(self).devices@,
                    device,
                    alias@,
                    PairedDevice { device, alias, paired_at: now, last_seen: now },
                )
            },
    {
        if let Some(_) = self.find_by_alias(alias.as_str()) {
            return Err(PairingError::AliasInUse);
        }
        let ghost pre = self.devices@;
        let entry_device = device.clone();
        let entry = PairedDevice { device: entry_device, alias, paired_at: now, last_seen: now };
        match self.find_by_id(&device.device_id) {
            Some(i) => {
                proof {
                    lemma_pair_entry_update(pre, device, entry.alias@, entry, i as int);
                }
                self.devices[i] = entry;
                proof {
                    lemma_replaced_keeps_wf(pre, self.devices@, i as int);
                }
            },
            None => {
                proof {
                    lemma_pair_entry_push(pre, device, entry.alias@, entry);
                }
                self.devices.push(entry);
            },
        }
        self.last_updated = now;
        Ok(())
    }

    /// Pairs a device under an alias at the current clock reading.
    pub fn pair_device(&mut self, device: SwitcherDevice, alias: String) -> (r: Result<
        (),
        PairingError,
    >)
        requires
            old(self).wf(),
        ensures
            final(self).wf(),
            r is Ok <==> !spec_pairing_has_alias(old(self).devices@, alias@),
            r matches Err(e) ==> e == PairingError::AliasInUse && *final(self) == *old(self),
            r is Ok ==> exists|now: u64|
                final(self).last_updated == now && final(self).devices@ =~= spec_pair_entry(
                    old(self).devices@,
                    device,
                    alias@,
                    PairedDevice { device, alias, paired_at: now, last_seen: now },
                ),
    {
        let now = current_timestamp();
        let ghost pre = self.devices@;
        let ghost d = device;
        let ghost al = alias;
        let r = self.pair_device_at(device, alias, now);
        proof {
            if r is Ok {
                assert(self.last_updated == now && self.devices@ =~= spec_pair_entry(
                    pre,
                    d,
                    al@,
                    PairedDevice { device: d, alias: al, paired_at: now, last_seen: now },
                ));
            }
        }
        r
    }

    /// Removes the pairing under this alias at a given clock reading.
    pub fn unpair_device_at(&mut self, alias: &str, now: u64) -> (r: Result<(), PairingError>)
        requires
            old(self).wf(),
        ensures
            final(self).wf(),
            r is Ok <==> spec_pairing_has_alias(old(self).devices@, alias@),
            r matches Err(e) ==> e == PairingError::AliasNotFound && *final(self) == *old(self),
            r is Ok ==> final(self).last_updated == now && final(self).devices@
                =~= spec_unpair_entry(old(self).devices@, alias@),
    {
        let ghost pre = self.devices@;
        match self.find_by_alias(alias) {
            Some(i) => {
                proof {
                    lemma_unpair_entry_removes(pre, alias@, i as int);
                }
                self.devices.remove(i);
                proof {
                    lemma_removed_keeps_wf(pre, self.devices@, i as int);
                }
                self.last_updated = now;
                Ok(())
            },
            None => Err(PairingError::AliasNotFound),
        }
    }

    /// Removes the pairing under this alias at the current clock reading.
    pub fn unpair_device(&mut self, alias: &str) -> (r: Result<(), PairingError>)
        requires
            old(self).wf(),
        ensures
            final(self).wf(),
            r is Ok <==> spec_pairing_has_alias(old(self).devices@, alias@),
            r matches Err(e) ==> e == PairingError::AliasNotFound && *final(self) == *old(self),
            r is Ok ==> final(self).devices@ =~= spec_unpair_entry(old(self).devices@, alias@),
    {
        let now = current_timestamp();
        self.unpair_device_at(alias, now)
    }

    /// The paired device under this alias, if any.
    pub fn get_device_by_alias(&self, alias: &str) -> (r: Option<&PairedDevice>)
        ensures
            r is Some <==> spec_pairing_has_alias(self.devices@, alias@),
            r matches Some(d) ==> exists|i: int|
                0 <= i < self.devices@.len() && *d == self.devices@[i] && self.devices@[i].alias@
                    == alias@,
    {
        match self.find_by_alias(alias) {
            Some(i) => Some(&self.devices[i]),
            None => None,
        }
    }

    /// A copy of every paired device, in table order.
    pub fn get_paired_devices(&self) -> (r: Vec<PairedDevice>)
        ensures
            r@ =~= self.devices@,
    {
        let n = self.devices.len();
        let mut out: Vec<PairedDevice> = Vec::new();
        let mut i: usize = 0;
        while i < n
            invariant
                n == self.devices@.len(),
                i <= n,
                out@ =~= self.devices@.take(i as int),
            decreases n - i,
        {
            out.push(self.devices[i].clone());
            proof {
                assert(self.devices@.take(i + 1) =~= self.devices@.take(i as int).push(
                    self.devices@[i as int],
                ));
            }
            i += 1;
        }
        proof {
            assert(self.devices@.take(n as int) =~= self.devices@);
        }
        out
    }

    /// Refreshes the record and sighting time of a paired device at a given
    /// clock reading; reports whether the device was paired at all.
    pub fn update_device_info_at(&mut self, device: &SwitcherDevice, now: u64) -> (r: bool)
        requires
            old(self).wf(),
        ensures
            final(self).wf(),
            r == spec_pairing_has_id(old(self).devices@, device.device_id@),
            r ==> final(self).last_updated == now && final(self).devices@ =~= spec_refresh_entry(
                old(self).devices@,
                *device,
                now,
            ),
            !r ==> *final(self) == *old(self),
    {
        let ghost pre = self.devices@;
        match self.find_by_id(&device.device_id) {
            Some(i) => {
                let alias = self.devices[i].alias.clone();
                let paired_at = self.devices[i].paired_at;
                proof {
                    lemma_refresh_entry_update(pre, *device, now, i as int);
                }
                self.devices[i] = PairedDevice {
                    device: device.clone(),
                    alias,
                    paired_at,
                    last_seen: now,
                };
                proof {
                    lemma_replaced_keeps_wf(pre, self.devices@, i as int);
                }
                self.last_updated = now;
                true
            },
            None => false,
        }
    }

    /// Refreshes the record and sighting time of a paired device at the
    /// current clock reading.
    pub fn update_device_info(&mut self, device: &SwitcherDevice) -> (r: bool)
        requires
            old(self).wf(),
        ensures
            final(self).wf(),
            r == spec_pairing_has_id(old(self).devices@, device.device_id@),
            r ==> exists|now: u64|
                final(self).last_updated == now && final(self).devices@ =~= spec_refresh_entry(
                    old(self).devices@,
                    *device,
                    now,
                ),
            !r ==> *final(self) == *old(self),
    {
        let now = current_timestamp();
        let ghost pre = self.devices@;
        let r = self.update_device_info_at(device, now);
        proof {
            if r {
                assert(self.last_updated == now && self.devices@ =~= spec_refresh_entry(
                    pre,
                    *device,
                    now,
                ));
            }
        }
        r
    }

    /// How many devices are paired.
    pub fn len(&self) -> (r: usize)
        ensures
            r == self.devices@.len(),
    {
        self.devices.len()
    }

    /// Whether any paired device carries this alias.
    pub fn has_alias(&self, alias: &str) -> (r: bool)
        ensures
            r == spec_pairing_has_alias(self.devices@, alias@),
    {
        match self.find_by_alias(alias) {
            Some(_) => true,
            None => false,
        }
    }
}

/// With the device already present at (first) position `i`, pairing is an
/// update at `i`.
proof fn lemma_pair_entry_update(
    s: Seq<PairedDevice>,
    device: SwitcherDevice,
    alias: Seq<char>,
    entry: PairedDevice,
    i: int,
)
    requires
        0 <= i < s.len(),
        s[i].device.device_id@ == device.device_id@,
        forall|j: int| 0 <= j < i ==> s[j].device.device_id@ != device.device_id@,
    ensures
        spec_pair_entry(s, device, alias, entry) =~= s.update(i, entry),
    decreases i,
{
    if i == 0 {
        assert(spec_pair_entry(s, device, alias, entry) =~= s.update(0, entry));
    } else {
        lemma_pair_entry_update(s.drop_first(), device, alias, entry, i - 1);
        assert(s.update(i, entry) =~= seq![s.first()] + s.drop_first().update(i - 1, entry));
    }
}

/// With the device absent, pairing is an append.
proof fn lemma_pair_entry_push(
    s: Seq<PairedDevice>,
    device: SwitcherDevice,
    alias: Seq<char>,
    entry: PairedDevice,
)
    requires
        !spec_pairing_has_id(s, device.device_id@),
    ensures
        spec_pair_entry(s, device, alias, entry) =~= s.push(entry),
    decreases s.len(),
{
    if s.len() > 0 {
        assert(s[0].device.device_id@ != device.device_id@);
        assert forall|j: int| 0 <= j < s.drop_first().len() implies s.drop_first()[j]
            .device.device_id@ != device.device_id@ by {
            assert(s.drop_first()[j] == s[j + 1]);
        }
        lemma_pair_entry_push(s.drop_first(), device, alias, entry);
        assert(s.push(entry) =~= seq![s.first()] + s.drop_first().push(entry));
    }
}

/// With the device present at (first) position `i`, refreshing is an
/// update at `i`.
proof fn lemma_refresh_entry_update(s: Seq<PairedDevice>, device: SwitcherDevice, now: u64, i: int)
    requires
        0 <= i < s.len(),
        s[i].device.device_id@ == device.device_id@,
        forall|j: int| 0 <= j < i ==> s[j].device.device_id@ != device.device_id@,
    ensures
        spec_refresh_entry(s, device, now) =~= s.update(
            i,
            PairedDevice { device, alias: s[i].alias, paired_at: s[i].paired_at, last_seen: now },
        ),
    decreases i,
{
    if i == 0 {
        assert(spec_refresh_entry(s, device, now) =~= s.update(
            0,
            PairedDevice { device, alias: s[0].alias, paired_at: s[0].paired_at, last_seen: now },
        ));
    } else {
        lemma_refresh_entry_update(s.drop_first(), device, now, i - 1);
        let e = PairedDevice {
            device,
            alias: s[i].alias,
            paired_at: s[i].paired_at,
            last_seen: now,
        };
        assert(s.update(i, e) =~= seq![s.first()] + s.drop_first().update(i - 1, e));
    }
}

/// With the alias first matching at position `i`, unpairing removes that
/// position.
proof fn lemma_unpair_entry_removes(s: Seq<PairedDevice>, alias: Seq<char>, i: int)
    requires
        0 <= i < s.len(),
        s[i].alias@ == alias,
        forall|j: int| 0 <= j < i ==> s[j].alias@ != alias,
    ensures
        spec_unpair_entry(s, alias) =~= s.remove(i),
    decreases i,
{
    if i == 0 {
        assert(spec_unpair_entry(s, alias) =~= s.remove(0));
    } else {
        lemma_unpair_entry_removes(s.drop_first(), alias, i - 1);
        assert(s.remove(i) =~= seq![s.first()] + s.drop_first().remove(i - 1));
    }
}

/// Replacing one entry with one that keeps its device id and carries an
/// alias found nowhere in the old table keeps both uniqueness invariants.
proof fn lemma_replaced_keeps_wf(pre: Seq<PairedDevice>, post: Seq<PairedDevice>, i: int)
    requires
        0 <= i < pre.len(),
        post =~= pre.update(i, post[i]),
        post[i].device.device_id@ == pre[i].device.device_id@,
        !spec_pairing_has_alias(pre, post[i].alias@) || post[i].alias@ == pre[i].alias@,
        forall|a: int, b: int|
            0 <= a < b < pre.len() ==> pre[a].device.device_id@ != pre[b].device.device_id@,
        forall|a: int, b: int| 0 <= a < b < pre.len() ==> pre[a].alias@ != pre[b].alias@,
    ensures
        forall|a: int, b: int|
            0 <= a < b < post.len() ==> post[a].device.device_id@ != post[b].device.device_id@,
        forall|a: int, b: int| 0 <= a < b < post.len() ==> post[a].alias@ != post[b].alias@,
{
    assert forall|a: int, b: int| 0 <= a < b < post.len() implies post[a].alias@
        != post[b].alias@ by {
        if a != i && b != i {
            assert(post[a] == pre[a] && post[b] == pre[b]);
        } else if a == i {
            assert(post[b] == pre[b]);
        } else {
            assert(post[a] == pre[a]);
        }
    }
    assert forall|a: int, b: int| 0 <= a < b < post.len() implies post[a].device.device_id@
        != post[b].device.device_id@ by {
        if a != i && b != i {
            assert(post[a] == pre[a] && post[b] == pre[b]);
        } else if a == i {
            assert(post[b] == pre[b]);
        } else {
            assert(post[a] == pre[a]);
        }
    }
}

/// Removing one entry keeps both uniqueness invariants.
proof fn lemma_removed_keeps_wf(pre: Seq<PairedDevice>, post: Seq<PairedDevice>, i: int)
    requires
        0 <= i < pre.len(),
        post =~= pre.remove(i),
        forall|a: int, b: int|
            0 <= a < b < pre.len() ==> pre[a].device.device_id@ != pre[b].device.device_id@,
        forall|a: int, b: int| 0 <= a < b < pre.len() ==> pre[a].alias@ != pre[b].alias@,
    ensures
        forall|a: int, b: int|
            0 <= a < b < post.len() ==> post[a].device.device_id@ != post[b].device.device_id@,
        forall|a: int, b: int| 0 <= a < b < post.len() ==> post[a].alias@ != post[b].alias@,
{
    assert forall|a: int, b: int| 0 <= a < b < post.len() implies post[a].alias@ != post[b].alias@
        && post[a].device.device_id@ != post[b].device.device_id@ by {
        let a2 = if a < i {
            a
        } else {
            a + 1
        };
        let b2 = if b < i {
            b
        } else {
            b + 1
        };
        assert(post[a] == pre[a2] && post[b] == pre[b2]);
    }
}

} // verus!
