use alert_distributor::keyed::UserKey;
use alert_distributor::permissions::cache::{PermissionCache, UserDevicesCache};
use alert_distributor::permissions::loader::{
    cache_from_rows, device_cache_from_rows, DeviceRow, PermissionRow,
};
use alert_distributor::sns::models::UserDevice;
use uuid::Uuid;

fn id() -> u128 {
    Uuid::new_v4().as_u128()
}

#[test]
fn snapshot_builder_deduplicates_units() {
    let org = id();
    let user = id();
    let unit = id();

    let rows = vec![
        PermissionRow { organization_id: org, user_id: user, unit_id: unit },
        PermissionRow { organization_id: org, user_id: user, unit_id: unit },
    ];

    let cache = cache_from_rows(rows);
    let units = cache.units_for(org, user).expect("units should exist");

    assert_eq!(units.len(), 1);
    assert_eq!(units[0], unit);
}

#[test]
fn snapshot_sorts_units_and_users() {
    let rows = vec![
        PermissionRow { organization_id: 2, user_id: 9, unit_id: 30 },
        PermissionRow { organization_id: 2, user_id: 9, unit_id: 10 },
        PermissionRow { organization_id: 1, user_id: 5, unit_id: 30 },
        PermissionRow { organization_id: 2, user_id: 9, unit_id: 20 },
        PermissionRow { organization_id: 2, user_id: 1, unit_id: 30 },
        PermissionRow { organization_id: 2, user_id: 9, unit_id: 10 },
    ];
    let cache = cache_from_rows(rows);
    assert_eq!(cache.len(), 3);
    assert_eq!(cache.units_for(2, 9), Some(vec![10, 20, 30]));
    assert_eq!(cache.units_for(1, 5), Some(vec![30]));
    assert_eq!(cache.units_for(1, 9), None);
    assert_eq!(
        cache.users_for_unit(30),
        Some(vec![
            UserKey { organization_id: 1, user_id: 5 },
            UserKey { organization_id: 2, user_id: 1 },
            UserKey { organization_id: 2, user_id: 9 },
        ])
    );
    assert_eq!(cache.users_for_unit(10), Some(vec![UserKey { organization_id: 2, user_id: 9 }]));
    assert_eq!(cache.users_for_unit(99), None);
}

#[test]
fn snapshot_of_no_rows_is_empty() {
    let cache = cache_from_rows(Vec::new());
    assert_eq!(cache.len(), 0);
    assert_eq!(cache.units_for(1, 1), None);
}

#[test]
fn permission_cache_replace_takes_the_snapshot() {
    let mut cache = PermissionCache::empty();
    assert_eq!(cache.len(), 0);
    let snapshot = cache_from_rows(vec![PermissionRow { organization_id: 1, user_id: 2, unit_id: 3 }]);
    cache.replace(snapshot);
    assert_eq!(cache.len(), 1);
    assert_eq!(cache.units_for(1, 2), Some(vec![3]));
}

fn device(id: u128, user: u128, platform: &str, arn: &str, active: bool) -> UserDevice {
    UserDevice {
        id,
        user_id: user,
        device_token: format!("token-{}", id),
        platform: platform.to_string(),
        endpoint_arn: arn.to_string(),
        is_active: active,
    }
}

fn device_row(org: u128, user: u128, device_id: u128, arn: Option<&str>) -> DeviceRow {
    DeviceRow {
        organization_id: org,
        user_id: user,
        device_id,
        device_token: format!("token-{}", device_id),
        platform: "android".to_string(),
        endpoint_arn: arn.map(|a| a.to_string()),
        is_active: true,
    }
}

#[test]
fn device_cache_groups_rows_in_order() {
    let cache = device_cache_from_rows(vec![
        device_row(1, 2, 10, Some("arn-a")),
        device_row(1, 3, 11, None),
        device_row(1, 2, 12, Some("arn-b")),
    ]);
    assert_eq!(cache.len(), 2);
    let devices = cache.devices_for(1, 2).unwrap();
    assert_eq!(devices.iter().map(|d| d.id).collect::<Vec<_>>(), vec![10, 12]);
    assert_eq!(devices[1].endpoint_arn, "arn-b");
    let other = cache.devices_for(1, 3).unwrap();
    assert_eq!(other.len(), 1);
    assert_eq!(other[0].endpoint_arn, "");
    assert!(cache.devices_for(9, 9).is_none());
}

#[test]
fn deactivate_removes_device_from_every_user() {
    let mut cache = UserDevicesCache::empty();
    cache.upsert(1, 2, device(10, 2, "ios", "a", true));
    cache.upsert(1, 2, device(11, 2, "ios", "b", true));
    cache.upsert(1, 3, device(12, 3, "ios", "c", true));
    assert!(cache.deactivate_device(11));
    assert_eq!(cache.devices_for(1, 2).unwrap().iter().map(|d| d.id).collect::<Vec<_>>(), vec![10]);
    assert!(!cache.deactivate_device(11));
    assert!(cache.deactivate_device(12));
    // the emptied list stays in the cache
    assert_eq!(cache.devices_for(1, 3).unwrap().len(), 0);
    assert_eq!(cache.len(), 2);
}

#[test]
fn upsert_moves_a_device_and_keeps_it_once() {
    let mut cache = UserDevicesCache::empty();
    cache.upsert(1, 2, device(10, 2, "ios", "old", true));
    cache.upsert(1, 2, device(11, 2, "ios", "x", true));
    cache.upsert(1, 3, device(10, 3, "android", "new", true));
    let first = cache.devices_for(1, 2).unwrap();
    assert_eq!(first.iter().map(|d| d.id).collect::<Vec<_>>(), vec![11]);
    let second = cache.devices_for(1, 3).unwrap();
    assert_eq!(second.len(), 1);
    assert_eq!(second[0].endpoint_arn, "new");
    cache.upsert(1, 2, device(11, 2, "ios", "y", true));
    let again = cache.devices_for(1, 2).unwrap();
    assert_eq!(again.len(), 1);
    assert_eq!(again[0].endpoint_arn, "y");
}
