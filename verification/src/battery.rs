//! The peripheral battery telemetry cache.
//!
//! A background task per device fetches a slow, optional battery reading
//! without blocking the redraw loop. The cache maps device identities to the
//! last fetched percentage; reading an entry removes it, so a displayed
//! value is never more than one refresh cycle old. A pending set keeps at
//! most one fetch in flight per device, and a finished fetch always leaves
//! the pending set, whatever its outcome.

use vstd::prelude::*;

use crate::address::Address;

verus! {

/// Hard ceiling on one background fetch, in seconds. Running out of time
/// means "no value this cycle", never an error.
pub const FETCH_TIMEOUT_SECS: u64 = 5;

/// Readings above this are out of range and are not cached.
pub const MAX_BATTERY_PERCENTAGE: u8 = 100;

/// The cache as contracts see it: the readings on hand and the devices with
/// a fetch in flight.
pub struct BatteryModel {
    pub cached: Map<Address, u8>,
    pub pending: Set<Address>,
}

/// Whether a fresh fetch must be spawned: only for a connected device with
/// no fetch already in flight.
pub open spec fn spawn_decision(m: BatteryModel, device: Address, connected: bool) -> bool {
    connected && !m.pending.contains(device)
}

/// The pending set after a spawn attempt.
pub open spec fn after_spawn(m: BatteryModel, device: Address, connected: bool) -> BatteryModel {
    if spawn_decision(m, device, connected) {
        BatteryModel { pending: m.pending.insert(device), ..m }
    } else {
        m
    }
}

/// What a read returns: the cached value, if any.
pub open spec fn read_result(m: BatteryModel, device: Address) -> Option<u8> {
    if m.cached.contains_key(device) {
        Some(m.cached[device])
    } else {
        None
    }
}

/// The cache after a read: the entry is gone, whatever it was.
pub open spec fn after_read(m: BatteryModel, device: Address) -> BatteryModel {
    BatteryModel { cached: m.cached.remove(device), ..m }
}

/// A reading worth caching: present and within range.
pub open spec fn valid_reading(reading: Option<u8>) -> bool {
    reading matches Some(v) && v <= MAX_BATTERY_PERCENTAGE
}

/// The cache after a fetch ends: the device always leaves the pending set,
/// and only a valid reading is written.
pub open spec fn after_finish(
    m: BatteryModel,
    device: Address,
    reading: Option<u8>,
) -> BatteryModel {
    BatteryModel {
        cached: if valid_reading(reading) {
            m.cached.insert(device, reading->Some_0)
        } else {
            m.cached
        },
        pending: m.pending.remove(device),
    }
}

/// No key appears twice.
pub open spec fn keys_unique(s: Seq<(Address, u8)>) -> bool {
    forall|i: int, j: int| 0 <= i < j < s.len() ==> (#[trigger] s[i]).0 != (#[trigger] s[j]).0
}

/// The map an association list stands for; later pairs win, though with
/// unique keys that never matters.
pub open spec fn assoc_map(s: Seq<(Address, u8)>) -> Map<Address, u8>
    decreases s.len(),
{
    if s.len() == 0 {
        Map::empty()
    } else {
        assoc_map(s.drop_last()).insert(s.last().0, s.last().1)
    }
}

proof fn lemma_assoc_map_no_key(s: Seq<(Address, u8)>, k: Address)
    requires
        forall|i: int| 0 <= i < s.len() ==> (#[trigger] s[i]).0 != k,
    ensures
        !assoc_map(s).contains_key(k),
    decreases s.len(),
{
    if s.len() > 0 {
        assert(forall|i: int|
            0 <= i < s.len() - 1 ==> (#[trigger] s.drop_last()[i]).0 != k);
        lemma_assoc_map_no_key(s.drop_last(), k);
        assert(s.last().0 != k);
    }
}

proof fn lemma_assoc_map_lookup(s: Seq<(Address, u8)>, i: int)
    requires
        keys_unique(s),
        0 <= i < s.len(),
    ensures
        assoc_map(s).contains_key(s[i].0),
        assoc_map(s)[s[i].0] == s[i].1,
    decreases s.len(),
{
    if i == s.len() - 1 {
    } else {
        assert(keys_unique(s.drop_last())) by {
            assert(forall|a: int, b: int|
                0 <= a < b < s.len() - 1 ==> (#[trigger] s.drop_last()[a]).0 != (
                #[trigger] s.drop_last()[b]).0);
        }
        assert(s.drop_last()[i] == s[i]);
        lemma_assoc_map_lookup(s.drop_last(), i);
        assert(s.last().0 != s[i].0);
    }
}

proof fn lemma_assoc_map_remove(s: Seq<(Address, u8)>, i: int)
    requires
        keys_unique(s),
        0 <= i < s.len(),
    ensures
        assoc_map(s.remove(i)) =~= assoc_map(s).remove(s[i].0),
    decreases s.len(),
{
    let k = s[i].0;
    if i == s.len() - 1 {
        assert(s.remove(i) == s.drop_last());
        assert(forall|j: int| 0 <= j < s.len() - 1 ==> (#[trigger] s[j]).0 != k);
        assert(forall|j: int|
            0 <= j < s.len() - 1 ==> (#[trigger] s.drop_last()[j]).0 != k);
        lemma_assoc_map_no_key(s.drop_last(), k);
        assert(assoc_map(s.drop_last()).insert(k, s[i].1).remove(k) =~= assoc_map(
            s.drop_last(),
        ));
    } else {
        assert(keys_unique(s.drop_last())) by {
            assert(forall|a: int, b: int|
                0 <= a < b < s.len() - 1 ==> (#[trigger] s.drop_last()[a]).0 != (
                #[trigger] s.drop_last()[b]).0);
        }
        assert(s.drop_last()[i] == s[i]);
        lemma_assoc_map_remove(s.drop_last(), i);
        assert(s.remove(i).drop_last() =~= s.drop_last().remove(i));
        assert(s.remove(i).last() == s.last());
        assert(s.last().0 != k);
        assert(assoc_map(s.remove(i)) == assoc_map(s.drop_last().remove(i)).insert(
            s.last().0,
            s.last().1,
        ));
        assert(assoc_map(s.drop_last()).remove(k).insert(s.last().0, s.last().1) =~= assoc_map(
            s.drop_last(),
        ).insert(s.last().0, s.last().1).remove(k));
    }
}

proof fn lemma_assoc_map_update(s: Seq<(Address, u8)>, i: int, v: u8)
    requires
        keys_unique(s),
        0 <= i < s.len(),
    ensures
        assoc_map(s.update(i, (s[i].0, v))) =~= assoc_map(s).insert(s[i].0, v),
        keys_unique(s.update(i, (s[i].0, v))),
    decreases s.len(),
{
    let k = s[i].0;
    let t = s.update(i, (k, v));
    assert(keys_unique(t)) by {
        assert(forall|a: int| 0 <= a < t.len() ==> (#[trigger] t[a]).0 == s[a].0);
    }
    if i == s.len() - 1 {
        assert(t.drop_last() =~= s.drop_last());
        assert(t.last() == (k, v));
    } else {
        assert(keys_unique(s.drop_last())) by {
            assert(forall|a: int, b: int|
                0 <= a < b < s.len() - 1 ==> (#[trigger] s.drop_last()[a]).0 != (
                #[trigger] s.drop_last()[b]).0);
        }
        assert(s.drop_last()[i] == s[i]);
        lemma_assoc_map_update(s.drop_last(), i, v);
        assert(t.drop_last() =~= s.drop_last().update(i, (k, v)));
        assert(t.last() == s.last());
        assert(s.last().0 != k);
        assert(assoc_map(s.drop_last()).insert(k, v).insert(s.last().0, s.last().1)
            =~= assoc_map(s.drop_last()).insert(s.last().0, s.last().1).insert(k, v));
    }
}

/// Last-known peripheral battery readings, plus the devices whose fetch is
/// still in flight.
pub struct BatteryCache {
    entries: Vec<(Address, u8)>,
    pending: Vec<Address>,
}

impl View for BatteryCache {
    type V = BatteryModel;

    closed spec fn view(&self) -> BatteryModel {
        BatteryModel { cached: assoc_map(self.entries@), pending: self.pending@.to_set() }
    }
}

impl BatteryCache {
    /// Internal shape the methods keep: no duplicate device in either list.
    pub closed spec fn wf(self) -> bool {
        keys_unique(self.entries@) && (forall|i: int, j: int|
            0 <= i < j < self.pending@.len() ==> self.pending@[i] != self.pending@[j])
    }

    pub fn new() -> (r: BatteryCache)
        ensures
            r.wf(),
            r@.cached =~= Map::empty(),
            r@.pending =~= Set::empty(),
    {
        let r = BatteryCache { entries: Vec::new(), pending: Vec::new() };
        proof {
            assert(r@.pending =~= Set::empty());
        }
        r
    }

    fn find_entry(&self, device: Address) -> (r: Option<usize>)
        ensures
            match r {
                Some(i) => i < self.entries@.len() && self.entries@[i as int].0 == device,
                None => forall|i: int|
                    0 <= i < self.entries@.len() ==> (#[trigger] self.entries@[i]).0 != device,
            },
    {
        let mut i: usize = 0;
        while i < self.entries.len()
            invariant
                i <= self.entries@.len(),
                forall|j: int| 0 <= j < i ==> (#[trigger] self.entries@[j]).0 != device,
            decreases self.entries@.len() - i,
        {
            if self.entries[i].0 == device {
                return Some(i);
            }
            i += 1;
        }
        None
    }

    fn find_pending(&self, device: Address) -> (r: bool)
        ensures
            r == self.pending@.contains(device),
    {
        let mut i: usize = 0;
        while i < self.pending.len()
            invariant
                i <= self.pending@.len(),
                forall|j: int| 0 <= j < i ==> self.pending@[j] != device,
            decreases self.pending@.len() - i,
        {
            if self.pending[i] == device {
                return true;
            }
            i += 1;
        }
        false
    }

    /// Atomically removes and returns the cached reading: the caller gets
    /// this cycle's display value, and the next read will miss until a fresh
    /// fetch completes. The pending set is untouched.
    pub fn read_and_invalidate(&mut self, device: Address) -> (r: Option<u8>)
        requires
            old(self).wf(),
        ensures
            final(self).wf(),
            r == read_result(old(self)@, device),
            final(self)@ == after_read(old(self)@, device),
    {
        let found = self.find_entry(device);
        match found {
            Some(i) => {
                let entry = self.entries.remove(i);
                proof {
                    lemma_assoc_map_lookup(old(self).entries@, i as int);
                    lemma_assoc_map_remove(old(self).entries@, i as int);
                    assert(keys_unique(self.entries@)) by {
                        assert(forall|a: int, b: int|
                            0 <= a < b < self.entries@.len() ==> (
                            #[trigger] self.entries@[a]).0 != (#[trigger] self.entries@[b]).0);
                    }
                    assert(final(self)@ =~~= after_read(old(self)@, device));
                }
                Some(entry.1)
            },
            None => {
                proof {
                    lemma_assoc_map_no_key(self.entries@, device);
                    assert(old(self)@.cached.remove(device) =~= old(self)@.cached);
                    assert(final(self)@ =~~= after_read(old(self)@, device));
                }
                None
            },
        }
    }

    /// Decides whether a background fetch must be started for this device
    /// and, when it must, marks the device pending. `true` means the caller
    /// is to spawn exactly one fetch task; a disconnected device or one
    /// already in flight is left alone.
    pub fn maybe_spawn_fetch(&mut self, device: Address, connected: bool) -> (spawn: bool)
        requires
            old(self).wf(),
        ensures
            final(self).wf(),
            spawn == spawn_decision(old(self)@, device, connected),
            final(self)@ == after_spawn(old(self)@, device, connected),
    {
        if !connected {
            proof {
                assert(final(self)@ =~~= after_spawn(old(self)@, device, connected));
            }
            return false;
        }
        if self.find_pending(device) {
            proof {
                assert(final(self)@ =~~= after_spawn(old(self)@, device, connected));
            }
            return false;
        }
        self.pending.push(device);
        proof {
            assert(self.pending@.drop_last() == old(self).pending@);
            assert(self.pending@.last() == device);
            assert(forall|i: int, j: int|
                0 <= i < j < self.pending@.len() ==> self.pending@[i] != self.pending@[j]);
            assert(self.pending@.to_set() =~= old(self).pending@.to_set().insert(device)) by {
                assert(forall|x: Address|
                    self.pending@.contains(x) <==> (old(self).pending@.contains(x) || x
                        == device)) by {
                    assert(forall|i: int|
                        0 <= i < old(self).pending@.len()
                            ==> self.pending@[i] == #[trigger] old(self).pending@[i]);
                }
            }
            assert(final(self)@ =~~= after_spawn(old(self)@, device, connected));
        }
        true
    }

    /// Records the end of a fetch: a valid reading is written to the cache,
    /// anything else leaves the cache as it was, and the device leaves the
    /// pending set unconditionally — success, failure and timeout alike.
    pub fn finish_fetch(&mut self, device: Address, reading: Option<u8>)
        requires
            old(self).wf(),
        ensures
            final(self).wf(),
            final(self)@ == after_finish(old(self)@, device, reading),
    {
        let valid = match reading {
            Some(v) => v <= MAX_BATTERY_PERCENTAGE,
            None => false,
        };
        if valid {
            let v = match reading {
                Some(v) => v,
                None => 0,
            };
            let found = self.find_entry(device);
            match found {
                Some(i) => {
                    proof {
                        lemma_assoc_map_update(self.entries@, i as int, v);
                    }
                    self.entries[i] = (device, v);
                },
                None => {
                    proof {
                        lemma_assoc_map_no_key(self.entries@, device);
                    }
                    self.entries.push((device, v));
                    proof {
                        assert(self.entries@.drop_last() == old(self).entries@);
                        assert(keys_unique(self.entries@));
                    }
                },
            }
        }
        self.remove_pending(device);
        proof {
            assert(final(self)@ =~~= after_finish(old(self)@, device, reading));
        }
    }

    /// Takes the device out of the pending list, if it is there.
    fn remove_pending(&mut self, device: Address)
        requires
            forall|i: int, j: int|
                0 <= i < j < old(self).pending@.len()
                    ==> old(self).pending@[i] != old(self).pending@[j],
        ensures
            final(self).entries@ == old(self).entries@,
            forall|i: int, j: int|
                0 <= i < j < final(self).pending@.len()
                    ==> final(self).pending@[i] != final(self).pending@[j],
            final(self).pending@.to_set() =~= old(self).pending@.to_set().remove(device),
    {
        let mut i: usize = 0;
        let n = self.pending.len();
        while i < n
            invariant
                n == self.pending@.len(),
                i <= n,
                self.pending@ == old(self).pending@,
                self.entries@ == old(self).entries@,
                forall|a: int, b: int|
                    0 <= a < b < self.pending@.len() ==> self.pending@[a] != self.pending@[b],
                forall|j: int| 0 <= j < i ==> self.pending@[j] != device,
            decreases n - i,
        {
            if self.pending[i] == device {
                let ghost pre = self.pending@;
                self.pending.remove(i);
                proof {
                    let cur = self.pending@;
                    assert(pre[i as int] == device);
                    assert(forall|a: int|
                        0 <= a < cur.len() ==> #[trigger] cur[a] == (if a < i {
                            pre[a]
                        } else {
                            pre[a + 1]
                        }));
                    assert(forall|a: int, b: int| 0 <= a < b < cur.len() ==> cur[a] != cur[b]);
                    assert(forall|a: int| 0 <= a < cur.len() ==> cur[a] != device);
                    assert(cur.to_set() =~= pre.to_set().remove(device)) by {
                        assert(forall|a: int|
                            0 <= a < cur.len() ==> pre.contains(#[trigger] cur[a]));
                        assert(forall|a: int|
                            0 <= a < pre.len() && #[trigger] pre[a] != device ==> cur.contains(
                                pre[a],
                            )) by {
                            assert(forall|a: int|
                                0 <= a < pre.len() && #[trigger] pre[a] != device ==> (if a < i {
                                    cur[a] == pre[a]
                                } else {
                                    a > i && cur[a - 1] == pre[a]
                                }));
                        }
                    }
                }
                return;
            }
            i += 1;
        }
        proof {
            assert(!self.pending@.contains(device));
            assert(self.pending@.to_set() =~= self.pending@.to_set().remove(device));
        }
    }
}

/// What one device contributes to a refresh cycle: a connected device's
/// cached reading is taken and invalidated, and then — only then — the spawn
/// decision is made, so a value read this cycle never blocks next cycle's
/// fetch. A disconnected device is left alone.
pub open spec fn cycle_step(m: BatteryModel, d: crate::bluetooth::Device) -> (
    BatteryModel,
    Option<u8>,
    bool,
) {
    if d.is_connected {
        let value = read_result(m, d.addr);
        let drained = after_read(m, d.addr);
        let spawn = spawn_decision(drained, d.addr, true);
        (after_spawn(drained, d.addr, true), value, spawn)
    } else {
        (m, None, false)
    }
}

/// The cache state after a whole cycle over `ds`, front to back.
pub open spec fn cycle_model(m: BatteryModel, ds: Seq<crate::bluetooth::Device>) -> BatteryModel
    decreases ds.len(),
{
    if ds.len() == 0 {
        m
    } else {
        cycle_step(cycle_model(m, ds.drop_last()), ds.last()).0
    }
}

/// The display values a cycle yields, one per device, in order.
pub open spec fn cycle_values(m: BatteryModel, ds: Seq<crate::bluetooth::Device>) -> Seq<
    Option<u8>,
>
    decreases ds.len(),
{
    if ds.len() == 0 {
        Seq::empty()
    } else {
        cycle_values(m, ds.drop_last()).push(
            cycle_step(cycle_model(m, ds.drop_last()), ds.last()).1,
        )
    }
}

/// The devices a cycle asks to be fetched, in order.
pub open spec fn cycle_spawns(m: BatteryModel, ds: Seq<crate::bluetooth::Device>) -> Seq<Address>
    decreases ds.len(),
{
    if ds.len() == 0 {
        Seq::empty()
    } else {
        let rest = cycle_spawns(m, ds.drop_last());
        if cycle_step(cycle_model(m, ds.drop_last()), ds.last()).2 {
            rest.push(ds.last().addr)
        } else {
            rest
        }
    }
}

/// One refresh cycle over a device list: for every connected device, this
/// cycle's display value is read out of the cache (and invalidated), and a
/// background fetch for the next cycle is requested unless one is already in
/// flight. Returns one display value per device, and the devices the caller
/// must start a fetch for.
pub fn battery_refresh_cycle(
    cache: &mut BatteryCache,
    devices: &Vec<crate::bluetooth::Device>,
) -> (r: (Vec<Option<u8>>, Vec<Address>))
    requires
        old(cache).wf(),
    ensures
        final(cache).wf(),
        final(cache)@ == cycle_model(old(cache)@, devices@),
        r.0@ == cycle_values(old(cache)@, devices@),
        r.1@ == cycle_spawns(old(cache)@, devices@),
{
    let mut values: Vec<Option<u8>> = Vec::new();
    let mut spawns: Vec<Address> = Vec::new();
    let mut i: usize = 0;
    let n = devices.len();
    while i < n
        invariant
            old(cache).wf(),
            cache.wf(),
            n == devices@.len(),
            i <= n,
            cache@ == cycle_model(old(cache)@, devices@.subrange(0, i as int)),
            values@ == cycle_values(old(cache)@, devices@.subrange(0, i as int)),
            spawns@ == cycle_spawns(old(cache)@, devices@.subrange(0, i as int)),
        decreases n - i,
    {
        let d = &devices[i];
        proof {
            let nxt = devices@.subrange(0, i + 1 as int);
            assert(nxt.drop_last() == devices@.subrange(0, i as int));
            assert(nxt.last() == devices@[i as int]);
        }
        if d.is_connected {
            let value = cache.read_and_invalidate(d.addr);
            let spawn = cache.maybe_spawn_fetch(d.addr, true);
            values.push(value);
            if spawn {
                spawns.push(d.addr);
            }
        } else {
            values.push(None);
        }
        i += 1;
    }
    proof {
        assert(devices@.subrange(0, n as int) == devices@);
    }
    (values, spawns)
}

/// Law: back-to-back spawn attempts for one connected device start exactly
/// one fetch — once the device is pending, the decision is `false` until the
/// fetch finishes.
pub proof fn lemma_fetch_deduplicated(m: BatteryModel, device: Address)
    ensures
        spawn_decision(m, device, true) ==> !spawn_decision(
            after_spawn(m, device, true),
            device,
            true,
        ),
{
}

/// Law: a read empties the entry it returned — the same device read twice
/// in a row yields the cached value at most once, then nothing.
pub proof fn lemma_read_invalidates(m: BatteryModel, device: Address)
    ensures
        read_result(after_read(m, device), device) is None,
{
}

/// Law: however a fetch ends — value, no value, or timeout — the device is
/// no longer pending afterwards, so the next cycle may fetch again.
pub proof fn lemma_finish_always_clears_pending(
    m: BatteryModel,
    device: Address,
    reading: Option<u8>,
)
    ensures
        !after_finish(m, device, reading).pending.contains(device),
        spawn_decision(after_finish(m, device, reading), device, true),
{
}

} // verus!
