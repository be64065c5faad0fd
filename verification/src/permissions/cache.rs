//! The permission snapshot (which units each user may see, and which users
//! may see each unit) and the cache of users' push devices.

use vstd::prelude::*;

use crate::keyed::{KeyedMap, UserKey};
use crate::ordered::copy_vec;
use crate::sns::models::{copy_devices, UserDevice};

verus! {

/// The permission snapshot as maps: the units of each user, and the users
/// of each unit.
pub struct PermissionView {
    pub units: Map<UserKey, Seq<u128>>,
    pub users: Map<u128, Seq<UserKey>>,
}

/// Which units each user may see, and which users may see each unit.
pub struct PermissionCache {
    inner: KeyedMap<UserKey, Vec<u128>>,
    by_unit: KeyedMap<u128, Vec<UserKey>>,
}

impl View for PermissionCache {
    type V = PermissionView;

    closed spec fn view(&self) -> PermissionView {
        PermissionView { units: self.inner@, users: self.by_unit@ }
    }
}

impl PermissionCache {
    /// A cache over the two maps.
    pub fn new(inner: KeyedMap<UserKey, Vec<u128>>, by_unit: KeyedMap<u128, Vec<UserKey>>) -> (r: Self)
        ensures
            r@.units == inner@,
            r@.users == by_unit@,
    {
        PermissionCache { inner, by_unit }
    }

    /// A cache that allows nothing.
    pub fn empty() -> (r: Self)
        ensures
            r@.units == Map::<UserKey, Seq<u128>>::empty(),
            r@.users == Map::<u128, Seq<UserKey>>::empty(),
    {
        PermissionCache { inner: KeyedMap::new(), by_unit: KeyedMap::new() }
    }

    /// The units that a user may see, where the snapshot lists the user.
    pub fn units_for(&self, organization_id: u128, user_id: u128) -> (r: Option<Vec<u128>>)
        ensures
            r is Some <==> self@.units.contains_key(UserKey { organization_id, user_id }),
            r matches Some(units) ==> units@ == self@.units[UserKey { organization_id, user_id }],
    {
        match self.inner.get(&UserKey { organization_id, user_id }) {
            Some(units) => Some(copy_vec(units)),
            None => None,
        }
    }

    /// How many users the snapshot lists.
    pub fn len(&self) -> (n: usize)
        ensures
            n == self@.units.len(),
    {
        self.inner.len()
    }

    /// The users that may see a unit, where the snapshot lists the unit.
    pub fn users_for_unit(&self, unit_id: u128) -> (r: Option<Vec<UserKey>>)
        ensures
            r is Some <==> self@.users.contains_key(unit_id),
            r matches Some(users) ==> users@ == self@.users[unit_id],
    {
        match self.by_unit.get(&unit_id) {
            Some(users) => Some(copy_vec(users)),
            None => None,
        }
    }

    /// Takes over the content of a new snapshot.
    pub fn replace(&mut self, snapshot: PermissionCache)
        ensures
            final(self)@ == snapshot@,
    {
        *self = snapshot;
    }
}

/// The devices of `s` but the one with id `id`, the others in order.
pub open spec fn without_device(s: Seq<UserDevice>, id: u128) -> Seq<UserDevice>
    decreases s.len(),
{
    if s.len() == 0 {
        Seq::empty()
    } else {
        without_device(s.drop_last(), id) + if s.last().id == id {
            Seq::empty()
        } else {
            seq![s.last()]
        }
    }
}

/// Every user's list of devices, with the device `id` taken out of each.
pub open spec fn deactivated(m: Map<UserKey, Seq<UserDevice>>, id: u128) -> Map<UserKey, Seq<UserDevice>> {
    Map::new(|k: UserKey| m.contains_key(k), |k: UserKey| without_device(m[k], id))
}

/// Whether some user lists the device `id`.
pub open spec fn lists_device(m: Map<UserKey, Seq<UserDevice>>, id: u128) -> bool {
    exists|k: UserKey, i: int| m.contains_key(k) && 0 <= i < m[k].len() && #[trigger] m[k][i].id == id
}

/// The devices listed for a user, or none.
pub open spec fn devices_listed(m: Map<UserKey, Seq<UserDevice>>, k: UserKey) -> Seq<UserDevice> {
    if m.contains_key(k) {
        m[k]
    } else {
        Seq::empty()
    }
}

/// A list of devices without the device `id`, the others in order.
pub fn devices_without(v: &Vec<UserDevice>, id: u128) -> (r: Vec<UserDevice>)
    ensures
        r@ == without_device(v@, id),
{
    let mut r: Vec<UserDevice> = Vec::new();
    let n = v.len();
    let mut i: usize = 0;
    while i < n
        invariant
            n == v@.len(),
            i <= n,
            r@ == without_device(v@.take(i as int), id),
        decreases n - i,
    {
        assert(v@.take(i + 1).drop_last() =~= v@.take(i as int));
        assert(v@.take(i + 1).last() == v@[i as int]);
        if v[i].id != id {
            r.push(v[i].duplicate());
            assert(without_device(v@.take(i + 1), id) =~= without_device(v@.take(i as int), id).push(v@[i as int]));
        } else {
            assert(without_device(v@.take(i + 1), id) =~= without_device(v@.take(i as int), id));
        }
        i = i + 1;
    }
    assert(v@.take(n as int) =~= v@);
    r
}

pub proof fn lemma_without_device_len(s: Seq<UserDevice>, id: u128)
    ensures
        without_device(s, id).len() <= s.len(),
        without_device(s, id).len() == s.len() <==> forall|i: int| 0 <= i < s.len() ==> #[trigger] s[i].id != id,
        without_device(s, id).len() == s.len() ==> without_device(s, id) == s,
    decreases s.len(),
{
    if s.len() > 0 {
        lemma_without_device_len(s.drop_last(), id);
        if forall|i: int| 0 <= i < s.len() ==> #[trigger] s[i].id != id {
            assert forall|i: int| 0 <= i < s.drop_last().len() implies #[trigger] s.drop_last()[i].id != id by {
                assert(s[i].id != id);
            }
            assert(s[s.len() - 1].id != id);
            assert(s.drop_last().push(s.last()) =~= s);
        }
        if without_device(s, id).len() == s.len() {
            assert(s.last().id != id);
            assert forall|i: int| 0 <= i < s.len() implies #[trigger] s[i].id != id by {
                if i < s.len() - 1 {
                    assert(s.drop_last()[i].id != id);
                }
            }
        }
    }
}

/// The push devices of each user.
pub struct UserDevicesCache {
    inner: KeyedMap<UserKey, Vec<UserDevice>>,
}

impl View for UserDevicesCache {
    type V = Map<UserKey, Seq<UserDevice>>;

    closed spec fn view(&self) -> Map<UserKey, Seq<UserDevice>> {
        self.inner@
    }
}

impl UserDevicesCache {
    /// A cache over the map.
    pub fn new(inner: KeyedMap<UserKey, Vec<UserDevice>>) -> (r: Self)
        ensures
            r@ == inner@,
    {
        UserDevicesCache { inner }
    }

    /// A cache with no device.
    pub fn empty() -> (r: Self)
        ensures
            r@ == Map::<UserKey, Seq<UserDevice>>::empty(),
    {
        UserDevicesCache { inner: KeyedMap::new() }
    }

    /// The devices of a user, where the cache lists the user.
    pub fn devices_for(&self, organization_id: u128, user_id: u128) -> (r: Option<Vec<UserDevice>>)
        ensures
            r is Some <==> self@.contains_key(UserKey { organization_id, user_id }),
            r matches Some(devices) ==> devices@ == self@[UserKey { organization_id, user_id }],
    {
        match self.inner.get(&UserKey { organization_id, user_id }) {
            Some(devices) => Some(copy_devices(devices)),
            None => None,
        }
    }

    /// How many users the cache lists.
    pub fn len(&self) -> (n: usize)
        ensures
            n == self@.len(),
    {
        self.inner.len()
    }

    /// Takes the device `device_id` out of every user's list, and tells
    /// whether some list held it. Lists left empty stay in the cache.
    pub fn deactivate_device(&mut self, device_id: u128) -> (removed: bool)
        ensures
            final(self)@ == deactivated(old(self)@, device_id),
            removed == lists_device(old(self)@, device_id),
    {
        let ghost start = self@;
        let n = self.inner.len();
        let ghost keys = self.inner.key_seq();
        let mut removed = false;
        let mut i: usize = 0;
        while i < n
            invariant
                n == keys.len(),
                keys == self.inner.key_seq(),
                keys.no_duplicates(),
                i <= n,
                self@.dom() == start.dom(),
                forall|k: UserKey| #[trigger] start.contains_key(k) ==> keys.contains(k),
                forall|j: int| 0 <= j < n ==> #[trigger] start.contains_key(keys[j]),
                forall|j: int| 0 <= j < i ==> #[trigger] self@[keys[j]] == without_device(start[keys[j]], device_id),
                forall|j: int| i <= j < n ==> #[trigger] self@[keys[j]] == start[keys[j]],
                removed == exists|j: int, d: int|
                    0 <= j < i && 0 <= d < start[keys[j]].len() && #[trigger] start[keys[j]][d].id == device_id,
            decreases n - i,
        {
            let devices = self.inner.value_at(i);
            let filtered = devices_without(devices, device_id);
            proof {
                lemma_without_device_len(devices@, device_id);
                assert(devices@ == start[keys[i as int]]);
            }
            if filtered.len() != devices.len() {
                removed = true;
                proof {
                    let d = choose|d: int| 0 <= d < devices@.len() && #[trigger] devices@[d].id == device_id;
                    assert(start[keys[i as int]][d].id == device_id);
                }
                self.inner.set_value_at(i, filtered);
                proof {
                    assert forall|j: int| 0 <= j < i + 1 implies #[trigger] self@[keys[j]] == without_device(start[keys[j]], device_id) by {
                        if j < i {
                            assert(keys[j] != keys[i as int]);
                        }
                    }
                    assert forall|j: int| i + 1 <= j < n implies #[trigger] self@[keys[j]] == start[keys[j]] by {
                        assert(keys[j] != keys[i as int]);
                    }
                    assert(self@.dom() =~= start.dom());
                }
            } else {
                proof {
                    assert(forall|d: int| 0 <= d < devices@.len() ==> #[trigger] devices@[d].id != device_id);
                    assert(!exists|d: int| 0 <= d < start[keys[i as int]].len() && #[trigger] start[keys[i as int]][d].id == device_id);
                }
            }
            i = i + 1;
        }
        proof {
            let want = deactivated(start, device_id);
            assert forall|k: UserKey| #[trigger] self@.contains_key(k) implies self@[k] == want[k] by {
                let j = choose|j: int| 0 <= j < n && keys[j] == k;
            }
            assert(self@ =~= want);
            if lists_device(start, device_id) {
                let (k, d) = choose|k: UserKey, d: int| start.contains_key(k) && 0 <= d < start[k].len() && #[trigger] start[k][d].id == device_id;
                let j = choose|j: int| 0 <= j < n && keys[j] == k;
                assert(start[keys[j]][d].id == device_id);
            }
            if removed {
                let (j, d) = choose|j: int, d: int|
                    0 <= j < i && 0 <= d < start[keys[j]].len() && #[trigger] start[keys[j]][d].id == device_id;
                assert(start.contains_key(keys[j]));
            }
        }
        removed
    }

    /// Files `device` under the user, at the end of the user's list, after
    /// taking any device with the same id out of every list.
    pub fn upsert(&mut self, organization_id: u128, user_id: u128, device: UserDevice)
        ensures
            final(self)@ == deactivated(old(self)@, device.id).insert(
                UserKey { organization_id, user_id },
                devices_listed(deactivated(old(self)@, device.id), UserKey { organization_id, user_id }).push(device),
            ),
    {
        self.deactivate_device(device.id);
        let key = UserKey { organization_id, user_id };
        let mut devices = match self.inner.get(&key) {
            Some(current) => copy_devices(current),
            None => Vec::new(),
        };
        devices.push(device);
        self.inner.insert(key, devices);
    }
}


pub proof fn lemma_without_device_drops(s: Seq<UserDevice>, id: u128)
    ensures
        forall|i: int| 0 <= i < without_device(s, id).len() ==> #[trigger] without_device(s, id)[i].id != id,
        forall|d: UserDevice| without_device(s, id).contains(d) <==> s.contains(d) && d.id != id,
    decreases s.len(),
{
    if s.len() > 0 {
        lemma_without_device_drops(s.drop_last(), id);
        let w = without_device(s.drop_last(), id);
        let t: Seq<UserDevice> = if s.last().id == id { Seq::empty() } else { seq![s.last()] };
        assert forall|i: int| 0 <= i < (w + t).len() implies #[trigger] (w + t)[i].id != id by {
            if i < w.len() {
                assert((w + t)[i] == w[i]);
            }
        }
        assert forall|d: UserDevice| (w + t).contains(d) <==> s.contains(d) && d.id != id by {
            if (w + t).contains(d) {
                let i = choose|i: int| 0 <= i < (w + t).len() && (w + t)[i] == d;
                if i < w.len() {
                    assert(w[i] == d);
                    assert(w.contains(d));
                    assert(s.drop_last().contains(d) && d.id != id);
                    let j = choose|j: int| 0 <= j < s.drop_last().len() && s.drop_last()[j] == d;
                    assert(s.drop_last()[j] == s[j]);
                } else {
                    assert(s[s.len() - 1] == d);
                }
            }
            if s.contains(d) && d.id != id {
                let j = choose|j: int| 0 <= j < s.len() && s[j] == d;
                if j < s.len() - 1 {
                    assert(s.drop_last()[j] == d);
                    assert(s.drop_last().contains(d));
                    let i = choose|i: int| 0 <= i < w.len() && w[i] == d;
                    assert((w + t)[i] == d);
                } else {
                    assert((w + t)[w.len() as int] == d);
                }
            }
        }
    }
}

/// Once a device is deactivated, no user lists it; every other device stays
/// where it was.
pub proof fn law_deactivated_drops_only_the_device(m: Map<UserKey, Seq<UserDevice>>, id: u128, k: UserKey, d: UserDevice)
    ensures
        !lists_device(deactivated(m, id), id),
        deactivated(m, id).contains_key(k) <==> m.contains_key(k),
        m.contains_key(k) ==> (deactivated(m, id)[k].contains(d) <==> m[k].contains(d) && d.id != id),
{
    if lists_device(deactivated(m, id), id) {
        let (k2, i) = choose|k2: UserKey, i: int|
            deactivated(m, id).contains_key(k2) && 0 <= i < deactivated(m, id)[k2].len() && #[trigger] deactivated(m, id)[k2][i].id == id;
        lemma_without_device_drops(m[k2], id);
    }
    if m.contains_key(k) {
        lemma_without_device_drops(m[k], id);
    }
}

} // verus!
