//! Building the permission snapshot and the device cache from the rows that
//! the database gives.

use vstd::prelude::*;

use crate::keyed::{KeyedMap, UserKey};
use crate::ordered::{insert_sorted, strictly_sorted};
use crate::permissions::cache::{PermissionCache, PermissionView, UserDevicesCache};
use crate::sns::models::{device_views, UserDevice, UserDeviceView};

verus! {

/// One row of the permission query: a user of an organization may see a unit.
#[derive(Clone, Copy, Debug, PartialEq, Eq, Structural)]
pub struct PermissionRow {
    pub organization_id: u128,
    pub user_id: u128,
    pub unit_id: u128,
}

/// One row of the device query: an active push device of a user.
#[derive(Clone, Debug)]
pub struct DeviceRow {
    pub organization_id: u128,
    pub user_id: u128,
    pub device_id: u128,
    pub device_token: String,
    pub platform: String,
    pub endpoint_arn: Option<String>,
    pub is_active: bool,
}

pub open spec fn row_key(r: PermissionRow) -> UserKey {
    UserKey { organization_id: r.organization_id, user_id: r.user_id }
}

/// The units that the rows allow a user.
pub open spec fn units_of(rows: Seq<PermissionRow>, key: UserKey) -> Set<u128> {
    Set::new(|u: u128| exists|i: int| 0 <= i < rows.len() && #[trigger] row_key(rows[i]) == key && rows[i].unit_id == u)
}

/// The users that the rows allow a unit.
pub open spec fn users_of(rows: Seq<PermissionRow>, unit: u128) -> Set<UserKey> {
    Set::new(|k: UserKey| exists|i: int| 0 <= i < rows.len() && #[trigger] rows[i].unit_id == unit && row_key(rows[i]) == k)
}

/// The snapshot that the rows give: each user the rows name gets the sorted
/// list of the units named with it, each unit the sorted list of the users
/// named with it, without repetition.
pub open spec fn snapshot_of(rows: Seq<PermissionRow>, v: PermissionView) -> bool {
    units_snapshot(rows, v.units) && users_snapshot(rows, v.users)
}

pub open spec fn units_snapshot(rows: Seq<PermissionRow>, m: Map<UserKey, Seq<u128>>) -> bool {
    &&& forall|k: UserKey| #[trigger] m.contains_key(k) <==> exists|i: int| 0 <= i < rows.len() && #[trigger] row_key(rows[i]) == k
    &&& forall|k: UserKey| #[trigger] m.contains_key(k) ==> strictly_sorted(m[k]) && m[k].to_set() == units_of(rows, k)
}

pub open spec fn users_snapshot(rows: Seq<PermissionRow>, m: Map<u128, Seq<UserKey>>) -> bool {
    &&& forall|u: u128| #[trigger] m.contains_key(u) <==> exists|i: int| 0 <= i < rows.len() && #[trigger] rows[i].unit_id == u
    &&& forall|u: u128| #[trigger] m.contains_key(u) ==> strictly_sorted(m[u]) && m[u].to_set() == users_of(rows, u)
}

/// Groups permission rows into the snapshot: each user's units and each
/// unit's users, sorted and without repetition.
pub fn cache_from_rows(rows: Vec<PermissionRow>) -> (cache: PermissionCache)
    ensures
        snapshot_of(rows@, cache@),
{
    let mut grouped: KeyedMap<UserKey, Vec<u128>> = KeyedMap::new();
    let mut by_unit_grouped: KeyedMap<u128, Vec<UserKey>> = KeyedMap::new();
    let n = rows.len();
    let mut i: usize = 0;
    while i < n
        invariant
            n == rows@.len(),
            i <= n,
            units_snapshot(rows@.take(i as int), grouped@),
            users_snapshot(rows@.take(i as int), by_unit_grouped@),
        decreases n - i,
    {
        let row = rows[i];
        let key = UserKey { organization_id: row.organization_id, user_id: row.user_id };
        let ghost pre = rows@.take(i as int);
        let ghost post = rows@.take(i + 1);
        let ghost g0 = grouped@;
        let ghost b0 = by_unit_grouped@;
        proof {
            assert(post =~= pre.push(row));
        }
        let mut units = match grouped.remove(&key) {
            Some(v) => v,
            None => Vec::new(),
        };
        insert_sorted(&mut units, row.unit_id);
        let ghost new_units = units@;
        grouped.insert(key, units);
        let mut users = match by_unit_grouped.remove(&row.unit_id) {
            Some(v) => v,
            None => Vec::new(),
        };
        insert_sorted(&mut users, key);
        let ghost new_users = users@;
        by_unit_grouped.insert(row.unit_id, users);
        proof {
            assert(row_key(post[i as int]) == key);
            assert forall|k: UserKey| #[trigger] grouped@.contains_key(k) <==> exists|j: int| 0 <= j < post.len() && #[trigger] row_key(post[j]) == k by {
                if k != key {
                    if exists|j: int| 0 <= j < post.len() && #[trigger] row_key(post[j]) == k {
                        let j = choose|j: int| 0 <= j < post.len() && #[trigger] row_key(post[j]) == k;
                        assert(j < i);
                        assert(pre[j] == post[j]);
                    }
                    if g0.contains_key(k) {
                        let j = choose|j: int| 0 <= j < pre.len() && #[trigger] row_key(pre[j]) == k;
                        assert(post[j] == pre[j]);
                    }
                }
            }
            assert forall|k: UserKey| #[trigger] grouped@.contains_key(k) implies strictly_sorted(grouped@[k]) && grouped@[k].to_set() == units_of(post, k) by {
                if k == key {
                    let before: Seq<u128> = if g0.contains_key(key) { g0[key] } else { Seq::empty() };
                    let bset: Set<u128> = if g0.contains_key(key) { units_of(pre, key) } else { Set::empty() };
                    if !g0.contains_key(key) {
                        assert(before.to_set() =~= Set::<u128>::empty());
                        assert forall|u: u128| !units_of(pre, key).contains(u) by {
                            if units_of(pre, key).contains(u) {
                                let j = choose|j: int| 0 <= j < pre.len() && #[trigger] row_key(pre[j]) == key && pre[j].unit_id == u;
                            }
                        }
                    }
                    assert(units_of(post, k) =~= units_of(pre, k).insert(row.unit_id)) by {
                        assert forall|u: u128| units_of(post, k).contains(u) implies units_of(pre, k).insert(row.unit_id).contains(u) by {
                            let j = choose|j: int| 0 <= j < post.len() && #[trigger] row_key(post[j]) == k && post[j].unit_id == u;
                            if j < i {
                                assert(pre[j] == post[j]);
                            }
                        }
                        assert forall|u: u128| units_of(pre, k).insert(row.unit_id).contains(u) implies units_of(post, k).contains(u) by {
                            if u == row.unit_id {
                                assert(row_key(post[i as int]) == k && post[i as int].unit_id == u);
                            } else {
                                let j = choose|j: int| 0 <= j < pre.len() && #[trigger] row_key(pre[j]) == k && pre[j].unit_id == u;
                                assert(post[j] == pre[j]);
                            }
                        }
                    }
                    assert(grouped@[k] == new_units);
                } else {
                    assert(grouped@[k] == g0[k]);
                    assert(units_of(post, k) =~= units_of(pre, k)) by {
                        assert forall|u: u128| units_of(post, k).contains(u) implies units_of(pre, k).contains(u) by {
                            let j = choose|j: int| 0 <= j < post.len() && #[trigger] row_key(post[j]) == k && post[j].unit_id == u;
                            assert(j < i);
                            assert(pre[j] == post[j]);
                        }
                        assert forall|u: u128| units_of(pre, k).contains(u) implies units_of(post, k).contains(u) by {
                            let j = choose|j: int| 0 <= j < pre.len() && #[trigger] row_key(pre[j]) == k && pre[j].unit_id == u;
                            assert(post[j] == pre[j]);
                        }
                    }
                }
            }
            let unit = row.unit_id;
            assert forall|u: u128| #[trigger] by_unit_grouped@.contains_key(u) <==> exists|j: int| 0 <= j < post.len() && #[trigger] post[j].unit_id == u by {
                if u != unit {
                    if exists|j: int| 0 <= j < post.len() && #[trigger] post[j].unit_id == u {
                        let j = choose|j: int| 0 <= j < post.len() && #[trigger] post[j].unit_id == u;
                        assert(j < i);
                        assert(pre[j] == post[j]);
                    }
                    if b0.contains_key(u) {
                        let j = choose|j: int| 0 <= j < pre.len() && #[trigger] pre[j].unit_id == u;
                        assert(post[j] == pre[j]);
                    }
                } else {
                    assert(post[i as int].unit_id == u);
                }
            }
            assert forall|u: u128| #[trigger] by_unit_grouped@.contains_key(u) implies strictly_sorted(by_unit_grouped@[u]) && by_unit_grouped@[u].to_set() == users_of(post, u) by {
                if u == unit {
                    let before: Seq<UserKey> = if b0.contains_key(unit) { b0[unit] } else { Seq::empty() };
                    if !b0.contains_key(unit) {
                        assert(before.to_set() =~= Set::<UserKey>::empty());
                        assert forall|k: UserKey| !users_of(pre, unit).contains(k) by {
                            if users_of(pre, unit).contains(k) {
                                let j = choose|j: int| 0 <= j < pre.len() && #[trigger] pre[j].unit_id == unit && row_key(pre[j]) == k;
                            }
                        }
                    }
                    assert(users_of(post, u) =~= users_of(pre, u).insert(key)) by {
                        assert forall|k: UserKey| users_of(post, u).contains(k) implies users_of(pre, u).insert(key).contains(k) by {
                            let j = choose|j: int| 0 <= j < post.len() && #[trigger] post[j].unit_id == u && row_key(post[j]) == k;
                            if j < i {
                                assert(pre[j] == post[j]);
                            }
                        }
                        assert forall|k: UserKey| users_of(pre, u).insert(key).contains(k) implies users_of(post, u).contains(k) by {
                            if k == key {
                                assert(post[i as int].unit_id == u && row_key(post[i as int]) == k);
                            } else {
                                let j = choose|j: int| 0 <= j < pre.len() && #[trigger] pre[j].unit_id == u && row_key(pre[j]) == k;
                                assert(post[j] == pre[j]);
                            }
                        }
                    }
                    assert(by_unit_grouped@[u] == new_users);
                } else {
                    assert(by_unit_grouped@[u] == b0[u]);
                    assert(users_of(post, u) =~= users_of(pre, u)) by {
                        assert forall|k: UserKey| users_of(post, u).contains(k) implies users_of(pre, u).contains(k) by {
                            let j = choose|j: int| 0 <= j < post.len() && #[trigger] post[j].unit_id == u && row_key(post[j]) == k;
                            assert(j < i);
                            assert(pre[j] == post[j]);
                        }
                        assert forall|k: UserKey| users_of(pre, u).contains(k) implies users_of(post, u).contains(k) by {
                            let j = choose|j: int| 0 <= j < pre.len() && #[trigger] pre[j].unit_id == u && row_key(pre[j]) == k;
                            assert(post[j] == pre[j]);
                        }
                    }
                }
            }
        }
        i = i + 1;
    }
    proof {
        assert(rows@.take(n as int) =~= rows@);
    }
    PermissionCache::new(grouped, by_unit_grouped)
}


pub open spec fn device_row_key(r: DeviceRow) -> UserKey {
    UserKey { organization_id: r.organization_id, user_id: r.user_id }
}

/// The device a row describes; a missing endpoint becomes the empty text.
pub open spec fn device_of_row(r: DeviceRow) -> UserDeviceView {
    UserDeviceView {
        id: r.device_id,
        user_id: r.user_id,
        device_token: r.device_token@,
        platform: r.platform@,
        endpoint_arn: match r.endpoint_arn {
            Some(arn) => arn@,
            None => Seq::empty(),
        },
        is_active: r.is_active,
    }
}

/// The devices that the rows give a user, in the order of the rows.
pub open spec fn row_devices(rows: Seq<DeviceRow>, key: UserKey) -> Seq<UserDeviceView>
    decreases rows.len(),
{
    if rows.len() == 0 {
        Seq::empty()
    } else {
        row_devices(rows.drop_last(), key) + if device_row_key(rows.last()) == key {
            seq![device_of_row(rows.last())]
        } else {
            Seq::empty()
        }
    }
}

/// The device cache that the rows give: each user the rows name, with the
/// devices of its rows in their order.
pub open spec fn devices_snapshot(rows: Seq<DeviceRow>, m: Map<UserKey, Seq<UserDevice>>) -> bool {
    &&& forall|k: UserKey| #[trigger] m.contains_key(k) <==> exists|i: int| 0 <= i < rows.len() && #[trigger] device_row_key(rows[i]) == k
    &&& forall|k: UserKey| #[trigger] m.contains_key(k) ==> device_views(m[k]) == row_devices(rows, k)
}

/// A device that carries, field by field, what a row says of it: its id,
/// user, token, platform and activity, and the row's endpoint ARN where one
/// is given (no ARN otherwise).
pub open spec fn device_keeps_row(d: UserDevice, r: DeviceRow) -> bool {
    &&& d.id == r.device_id
    &&& d.user_id == r.user_id
    &&& d.device_token@ == r.device_token@
    &&& d.platform@ == r.platform@
    &&& d.is_active == r.is_active
    &&& (r.endpoint_arn matches Some(arn) ==> d.endpoint_arn@ == arn@)
    &&& (r.endpoint_arn is None ==> d.endpoint_arn@.len() == 0)
}

/// The device a row describes.
pub fn device_from_row(row: &DeviceRow) -> (d: UserDevice)
    ensures
        d@ == device_of_row(*row),
        device_keeps_row(d, *row),
{
    UserDevice {
        id: row.device_id,
        user_id: row.user_id,
        device_token: row.device_token.clone(),
        platform: row.platform.clone(),
        endpoint_arn: match &row.endpoint_arn {
            Some(arn) => arn.clone(),
            None => String::new(),
        },
        is_active: row.is_active,
    }
}

/// Groups device rows by user, keeping the order of the rows.
pub fn device_cache_from_rows(rows: Vec<DeviceRow>) -> (cache: UserDevicesCache)
    ensures
        devices_snapshot(rows@, cache@),
{
    let mut grouped: KeyedMap<UserKey, Vec<UserDevice>> = KeyedMap::new();
    let n = rows.len();
    let mut i: usize = 0;
    while i < n
        invariant
            n == rows@.len(),
            i <= n,
            devices_snapshot(rows@.take(i as int), grouped@),
        decreases n - i,
    {
        let row = &rows[i];
        let key = UserKey { organization_id: row.organization_id, user_id: row.user_id };
        let ghost pre = rows@.take(i as int);
        let ghost post = rows@.take(i + 1);
        let ghost g0 = grouped@;
        proof {
            assert(post =~= pre.push(*row));
            assert(post.drop_last() =~= pre);
        }
        let mut devices = match grouped.remove(&key) {
            Some(v) => v,
            None => Vec::new(),
        };
        let ghost before = devices@;
        devices.push(device_from_row(row));
        proof {
            if !g0.contains_key(key) {
                assert(row_devices(pre, key) =~= Seq::<UserDeviceView>::empty()) by {
                    lemma_row_devices_absent(pre, key);
                }
            }
            assert(device_views(devices@) =~= device_views(before).push(device_of_row(*row)));
        }
        grouped.insert(key, devices);
        proof {
            assert(device_row_key(post[i as int]) == key);
            assert forall|k: UserKey| #[trigger] grouped@.contains_key(k) <==> exists|j: int| 0 <= j < post.len() && #[trigger] device_row_key(post[j]) == k by {
                if k != key {
                    if exists|j: int| 0 <= j < post.len() && #[trigger] device_row_key(post[j]) == k {
                        let j = choose|j: int| 0 <= j < post.len() && #[trigger] device_row_key(post[j]) == k;
                        assert(j < i);
                        assert(pre[j] == post[j]);
                    }
                    if g0.contains_key(k) {
                        let j = choose|j: int| 0 <= j < pre.len() && #[trigger] device_row_key(pre[j]) == k;
                        assert(post[j] == pre[j]);
                    }
                }
            }
            assert forall|k: UserKey| #[trigger] grouped@.contains_key(k) implies device_views(grouped@[k]) == row_devices(post, k) by {
                assert(post.last() == *row);
                if k == key {
                    assert(row_devices(post, k) =~= row_devices(pre, k).push(device_of_row(*row)));
                } else {
                    assert(row_devices(post, k) =~= row_devices(pre, k));
                }
            }
        }
        i = i + 1;
    }
    proof {
        assert(rows@.take(n as int) =~= rows@);
    }
    UserDevicesCache::new(grouped)
}

pub proof fn lemma_row_devices_absent(rows: Seq<DeviceRow>, key: UserKey)
    requires
        !exists|i: int| 0 <= i < rows.len() && #[trigger] device_row_key(rows[i]) == key,
    ensures
        row_devices(rows, key) == Seq::<UserDeviceView>::empty(),
    decreases rows.len(),
{
    if rows.len() > 0 {
        assert(!exists|i: int| 0 <= i < rows.drop_last().len() && #[trigger] device_row_key(rows.drop_last()[i]) == key) by {
            if exists|i: int| 0 <= i < rows.drop_last().len() && #[trigger] device_row_key(rows.drop_last()[i]) == key {
                let i = choose|i: int| 0 <= i < rows.drop_last().len() && #[trigger] device_row_key(rows.drop_last()[i]) == key;
                assert(rows[i] == rows.drop_last()[i]);
            }
        }
        lemma_row_devices_absent(rows.drop_last(), key);
        assert(device_row_key(rows[rows.len() - 1]) != key);
        assert(row_devices(rows, key) =~= Seq::<UserDeviceView>::empty());
    }
}


/// The view `v` is the device of some row of the user `key`.
spec fn is_row_device(rows: Seq<DeviceRow>, key: UserKey, v: UserDeviceView) -> bool {
    exists|i: int| 0 <= i < rows.len() && #[trigger] device_row_key(rows[i]) == key && device_of_row(rows[i]) == v
}

proof fn lemma_row_devices_members(rows: Seq<DeviceRow>, key: UserKey)
    ensures
        forall|i: int|
            0 <= i < rows.len() && #[trigger] device_row_key(rows[i]) == key ==> row_devices(rows, key).contains(
                device_of_row(rows[i]),
            ),
        forall|j: int| 0 <= j < row_devices(rows, key).len() ==> is_row_device(rows, key, #[trigger] row_devices(rows, key)[j]),
    decreases rows.len(),
{
    if rows.len() > 0 {
        let q = rows.drop_last();
        lemma_row_devices_members(q, key);
        let w = row_devices(q, key);
        let t: Seq<UserDeviceView> = if device_row_key(rows.last()) == key {
            seq![device_of_row(rows.last())]
        } else {
            Seq::empty()
        };
        assert(row_devices(rows, key) == w + t);
        assert forall|i: int| 0 <= i < rows.len() && #[trigger] device_row_key(rows[i]) == key implies row_devices(
            rows,
            key,
        ).contains(device_of_row(rows[i])) by {
            if i < q.len() {
                assert(q[i] == rows[i]);
                assert(device_row_key(q[i]) == key);
                let j = choose|j: int| 0 <= j < w.len() && w[j] == device_of_row(q[i]);
                assert((w + t)[j] == w[j]);
            } else {
                assert(rows[i] == rows.last());
                assert((w + t)[w.len() as int] == device_of_row(rows[i]));
            }
        }
        assert forall|j: int| 0 <= j < row_devices(rows, key).len() implies is_row_device(rows, key, #[trigger] row_devices(rows, key)[j]) by {
            if j < w.len() {
                assert((w + t)[j] == w[j]);
                assert(is_row_device(q, key, w[j]));
                let i = choose|i: int| 0 <= i < q.len() && #[trigger] device_row_key(q[i]) == key && device_of_row(q[i]) == w[j];
                assert(q[i] == rows[i]);
                assert(0 <= i < rows.len() && device_row_key(rows[i]) == key && device_of_row(rows[i])
                    == row_devices(rows, key)[j]);
            } else {
                let last = rows.len() - 1;
                assert(rows[last] == rows.last());
                assert(t.len() == 1);
                assert(device_row_key(rows[last]) == key);
                assert((w + t)[j] == t[j - w.len()]);
                assert(0 <= last < rows.len() && device_row_key(rows[last]) == key && device_of_row(rows[last])
                    == row_devices(rows, key)[j]);
            }
        }
    } else {
        assert(row_devices(rows, key).len() == 0);
    }
}

/// A device cache built from rows holds, in the list of each row's user, a
/// device that keeps the row's id, token, platform, activity and endpoint
/// ARN; and every device it holds is, in that sense, the device of a row of
/// its user.
pub proof fn law_device_cache_keeps_rows(rows: Seq<DeviceRow>, m: Map<UserKey, Seq<UserDevice>>)
    requires
        devices_snapshot(rows, m),
    ensures
        forall|i: int|
            0 <= i < rows.len() ==> m.contains_key(#[trigger] device_row_key(rows[i])) && exists|j: int|
                0 <= j < m[device_row_key(rows[i])].len() && device_keeps_row(
                    #[trigger] m[device_row_key(rows[i])][j],
                    rows[i],
                ),
        forall|k: UserKey, j: int|
            m.contains_key(k) && 0 <= j < m[k].len() ==> exists|i: int|
                0 <= i < rows.len() && #[trigger] device_row_key(rows[i]) == k && device_keeps_row(#[trigger] m[k][j], rows[i]),
{
    assert forall|i: int| 0 <= i < rows.len() implies m.contains_key(#[trigger] device_row_key(rows[i])) && exists|j: int|
        0 <= j < m[device_row_key(rows[i])].len() && device_keeps_row(#[trigger] m[device_row_key(rows[i])][j], rows[i]) by {
        let k = device_row_key(rows[i]);
        assert(m.contains_key(k));
        lemma_row_devices_members(rows, k);
        assert(row_devices(rows, k).contains(device_of_row(rows[i])));
        let j = choose|j: int| 0 <= j < row_devices(rows, k).len() && row_devices(rows, k)[j] == device_of_row(rows[i]);
        assert(device_views(m[k])[j] == m[k][j]@);
        assert(device_keeps_row(m[k][j], rows[i]));
    }
    assert forall|k: UserKey, j: int| m.contains_key(k) && 0 <= j < m[k].len() implies exists|i: int|
        0 <= i < rows.len() && #[trigger] device_row_key(rows[i]) == k && device_keeps_row(#[trigger] m[k][j], rows[i]) by {
        lemma_row_devices_members(rows, k);
        assert(device_views(m[k])[j] == m[k][j]@);
        assert(device_views(m[k]).len() == m[k].len());
        assert(is_row_device(rows, k, row_devices(rows, k)[j]));
        let i = choose|i: int| 0 <= i < rows.len() && #[trigger] device_row_key(rows[i]) == k && device_of_row(rows[i])
            == row_devices(rows, k)[j];
        assert(device_keeps_row(m[k][j], rows[i]));
    }
}

/// In a snapshot built from rows, a user is given a unit exactly when the
/// unit is given that user: the two maps of the snapshot agree.
pub proof fn law_snapshot_symmetric(rows: Seq<PermissionRow>, v: PermissionView, k: UserKey, u: u128)
    requires
        snapshot_of(rows, v),
    ensures
        (v.units.contains_key(k) && v.units[k].contains(u)) <==> (v.users.contains_key(u) && v.users[u].contains(k)),
{
    if v.units.contains_key(k) && v.units[k].contains(u) {
        assert(v.units[k].to_set().contains(u));
        assert(units_of(rows, k).contains(u));
        let i = choose|i: int| 0 <= i < rows.len() && #[trigger] row_key(rows[i]) == k && rows[i].unit_id == u;
        assert(v.users.contains_key(u));
        assert(users_of(rows, u).contains(k));
        assert(v.users[u].to_set().contains(k));
    }
    if v.users.contains_key(u) && v.users[u].contains(k) {
        assert(v.users[u].to_set().contains(k));
        assert(users_of(rows, u).contains(k));
        let i = choose|i: int| 0 <= i < rows.len() && #[trigger] rows[i].unit_id == u && row_key(rows[i]) == k;
        assert(v.units.contains_key(k));
        assert(units_of(rows, k).contains(u));
        assert(v.units[k].to_set().contains(u));
    }
}

/// In a snapshot built from rows, a user is given a unit exactly when some
/// row names both.
pub proof fn law_snapshot_units(rows: Seq<PermissionRow>, v: PermissionView, k: UserKey, u: u128)
    requires
        snapshot_of(rows, v),
    ensures
        (v.units.contains_key(k) && v.units[k].contains(u)) <==> exists|i: int|
            0 <= i < rows.len() && #[trigger] row_key(rows[i]) == k && rows[i].unit_id == u,
{
    if exists|i: int| 0 <= i < rows.len() && #[trigger] row_key(rows[i]) == k && rows[i].unit_id == u {
        let i = choose|i: int| 0 <= i < rows.len() && #[trigger] row_key(rows[i]) == k && rows[i].unit_id == u;
        assert(v.units.contains_key(k));
        assert(units_of(rows, k).contains(u));
        assert(v.units[k].to_set().contains(u));
    }
    if v.units.contains_key(k) && v.units[k].contains(u) {
        assert(v.units[k].to_set().contains(u));
        assert(units_of(rows, k).contains(u));
    }
}

} // verus!
