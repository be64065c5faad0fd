//! Applying the updates that the user-devices topic carries to the device
//! cache.

use vstd::prelude::*;

use crate::keyed::UserKey;
use crate::permissions::cache::{deactivated, devices_listed, lists_device, UserDevicesCache};
use crate::sns::models::{UserDevice, UserDeviceView};
use crate::text::{eq_ignore_ascii_case, same_ignoring_ascii_case, text_eq, to_ascii_upper, upper_ascii};

verus! {

/// The device that an update describes.
#[derive(Clone, Debug)]
pub struct UserDeviceUpdateData {
    pub id: u128,
    pub user_id: u128,
    pub device_token: String,
    pub platform: String,
    pub endpoint_arn: Option<String>,
    pub is_active: bool,
}

/// An update from the user-devices topic: its envelope, and its data where
/// the data reads as a device.
#[derive(Clone, Debug)]
pub struct UserDeviceUpdate {
    pub event_type: String,
    pub entity: String,
    pub organization_id: Option<u128>,
    pub data: Option<UserDeviceUpdateData>,
}

/// What an update did to the cache.
#[derive(Debug)]
pub enum UpdateOutcome {
    /// The update is about another entity: ignored.
    IgnoredUnknownEntity,
    /// The update's data is no device: ignored.
    InvalidData,
    /// The device was taken out of every user's list; `removed` tells
    /// whether some list held it.
    Removed { device_id: u128, removed: bool },
    /// The update would file the device but names no organization: ignored.
    MissingOrganization { device_id: u128 },
    /// The device was filed under the user.
    Upserted { organization_id: u128, device: UserDevice },
}

/// Updates about user devices: those with no entity named, or that name
/// `user_device` in any ASCII case.
pub open spec fn entity_accepted(entity: Seq<char>) -> bool {
    entity.len() == 0 || same_ignoring_ascii_case(entity, "user_device"@)
}

/// Updates that take a device out: deletions (in any ASCII case), and
/// devices no longer active.
pub open spec fn is_removal(event_type: Seq<char>, is_active: bool) -> bool {
    upper_ascii(event_type) == "DELETE"@ || !is_active
}

/// The device an update files; a missing endpoint becomes the empty text.
pub open spec fn device_of_update(d: UserDeviceUpdateData) -> UserDeviceView {
    UserDeviceView {
        id: d.id,
        user_id: d.user_id,
        device_token: d.device_token@,
        platform: d.platform@,
        endpoint_arn: match d.endpoint_arn {
            Some(arn) => arn@,
            None => Seq::empty(),
        },
        is_active: d.is_active,
    }
}

/// Applies an update to the device cache.
pub fn apply_user_device_update(update: UserDeviceUpdate, cache: &mut UserDevicesCache) -> (outcome: UpdateOutcome)
    ensures
        !entity_accepted(update.entity@) ==> outcome is IgnoredUnknownEntity && final(cache)@ == old(cache)@,
        entity_accepted(update.entity@) && update.data is None ==> outcome is InvalidData && final(cache)@
            == old(cache)@,
        entity_accepted(update.entity@) && update.data is Some ==> ({
            let d = update.data->0;
            if is_removal(update.event_type@, d.is_active) {
                &&& outcome == (UpdateOutcome::Removed { device_id: d.id, removed: lists_device(old(cache)@, d.id) })
                &&& final(cache)@ == deactivated(old(cache)@, d.id)
            } else {
                match update.organization_id {
                    None => outcome == (UpdateOutcome::MissingOrganization { device_id: d.id }) && final(cache)@
                        == old(cache)@,
                    Some(org) => {
                        let key = UserKey { organization_id: org, user_id: d.user_id };
                        match outcome {
                            UpdateOutcome::Upserted { organization_id, device } => {
                                &&& organization_id == org
                                &&& device@ == device_of_update(d)
                                &&& device.id == d.id && device.user_id == d.user_id
                                &&& device.device_token@ == d.device_token@ && device.platform@ == d.platform@
                                &&& device.is_active == d.is_active
                                &&& (d.endpoint_arn matches Some(arn) ==> device.endpoint_arn@ == arn@)
                                &&& (d.endpoint_arn is None ==> device.endpoint_arn@.len() == 0)
                                &&& final(cache)@ == deactivated(old(cache)@, d.id).insert(
                                    key,
                                    devices_listed(deactivated(old(cache)@, d.id), key).push(device),
                                )
                            },
                            _ => false,
                        }
                    },
                }
            }
        }),
{
    if !update.entity.as_str().is_empty() && !eq_ignore_ascii_case(update.entity.as_str(), "user_device") {
        return UpdateOutcome::IgnoredUnknownEntity;
    }
    let data = match update.data {
        Some(data) => data,
        None => {
            return UpdateOutcome::InvalidData;
        },
    };
    let event_type = to_ascii_upper(update.event_type.as_str());
    if text_eq(event_type.as_str(), "DELETE") || !data.is_active {
        let removed = cache.deactivate_device(data.id);
        return UpdateOutcome::Removed { device_id: data.id, removed };
    }
    let organization_id = match update.organization_id {
        Some(org) => org,
        None => {
            return UpdateOutcome::MissingOrganization { device_id: data.id };
        },
    };
    let device = UserDevice {
        id: data.id,
        user_id: data.user_id,
        device_token: data.device_token,
        platform: data.platform,
        endpoint_arn: match data.endpoint_arn {
            Some(arn) => arn,
            None => String::new(),
        },
        is_active: data.is_active,
    };
    let filed = device.duplicate();
    cache.upsert(organization_id, data.user_id, device);
    UpdateOutcome::Upserted { organization_id, device: filed }
}

/// An upsert files, last in the list of the update's user, a device that
/// carries the update's id, user, token, platform and activity, and the
/// update's endpoint ARN where one is given (no ARN otherwise), while every
/// other user keeps their devices but the one updated.
pub proof fn law_upsert_files_the_update(m: Map<UserKey, Seq<UserDevice>>, org: u128, d: UserDeviceUpdateData, device: UserDevice)
    requires
        device@ == device_of_update(d),
    ensures
        ({
            let key = UserKey { organization_id: org, user_id: d.user_id };
            let after = deactivated(m, d.id).insert(key, devices_listed(deactivated(m, d.id), key).push(device));
            &&& after.contains_key(key)
            &&& after[key].last() == device
            &&& device.id == d.id && device.user_id == d.user_id
            &&& device.device_token@ == d.device_token@ && device.platform@ == d.platform@
            &&& device.is_active == d.is_active
            &&& (d.endpoint_arn matches Some(arn) ==> device.endpoint_arn@ == arn@)
            &&& (d.endpoint_arn is None ==> device.endpoint_arn@.len() == 0)
            &&& forall|k: UserKey| k != key ==> #[trigger] devices_listed(after, k) == devices_listed(deactivated(m, d.id), k)
        }),
{
}

} // verus!
