//! Picks the push targets of an alert and hands them to the broadcaster.

use vstd::prelude::*;

use crate::ids::{parse_uuid, uuid_text_value};
use crate::keyed::UserKey;
use crate::models::alert_event::AlertEvent;
use crate::permissions::cache::{devices_listed, PermissionCache, PermissionView, UserDevicesCache};
use crate::sns::metrics::SnsMetrics;
use crate::sns::models::{endpoint_supported, UserDevice};
use crate::text::{has_infix, same_ignoring_ascii_case};
use crate::sns::publisher::{alert_sends, counter_after, BroadcastClosed, SnsBroadcaster};

verus! {

/// A device that can receive a push: active, with an endpoint that suits
/// its platform.
pub open spec fn eligible(d: UserDevice) -> bool {
    d.is_active && d.endpoint_arn@.len() > 0 && endpoint_supported(d.platform@, d.endpoint_arn@)
}

/// The devices of a list that can receive a push, in order.
pub open spec fn eligible_devices(s: Seq<UserDevice>) -> Seq<UserDevice>
    decreases s.len(),
{
    if s.len() == 0 {
        Seq::empty()
    } else {
        eligible_devices(s.drop_last()) + if eligible(s.last()) {
            seq![s.last()]
        } else {
            Seq::empty()
        }
    }
}

/// The eligible devices of the users, user after user.
pub open spec fn targets_for_users(users: Seq<UserKey>, devices: Map<UserKey, Seq<UserDevice>>) -> Seq<UserDevice>
    decreases users.len(),
{
    if users.len() == 0 {
        Seq::empty()
    } else {
        targets_for_users(users.drop_last(), devices) + eligible_devices(devices_listed(devices, users.last()))
    }
}

/// The push targets of an alert for a unit: the eligible devices of every
/// user allowed the unit, in the order of the snapshot.
pub open spec fn sns_targets(perm: PermissionView, devices: Map<UserKey, Seq<UserDevice>>, unit: u128) -> Seq<UserDevice> {
    targets_for_users(
        if perm.users.contains_key(unit) {
            perm.users[unit]
        } else {
            Seq::empty()
        },
        devices,
    )
}

/// Collects the push targets for a unit, counting each as resolved.
pub fn resolve_targets(
    permissions: &PermissionCache,
    devices: &UserDevicesCache,
    unit_id: u128,
    metrics: &mut SnsMetrics,
) -> (targets: Vec<UserDevice>)
    ensures
        targets@ == sns_targets(permissions@, devices@, unit_id),
        *final(metrics) == (SnsMetrics { resolved: counter_after(old(metrics).resolved, targets@.len() as nat), ..*old(metrics) }),
{
    let mut targets: Vec<UserDevice> = Vec::new();
    let users = match permissions.users_for_unit(unit_id) {
        Some(users) => users,
        None => Vec::new(),
    };
    let ghost all_users = users@;
    let n = users.len();
    let mut i: usize = 0;
    while i < n
        invariant
            n == users@.len(),
            all_users == users@,
            i <= n,
            targets@ == targets_for_users(all_users.take(i as int), devices@),
            *metrics == (SnsMetrics { resolved: counter_after(old(metrics).resolved, targets@.len() as nat), ..*old(metrics) }),
        decreases n - i,
    {
        let key = users[i];
        let listed = match devices.devices_for(key.organization_id, key.user_id) {
            Some(list) => list,
            None => Vec::new(),
        };
        proof {
            assert(listed@ == devices_listed(devices@, key));
        }
        let ghost start = targets@;
        let m = listed.len();
        let mut j: usize = 0;
        while j < m
            invariant
                m == listed@.len(),
                j <= m,
                targets@ == start + eligible_devices(listed@.take(j as int)),
                *metrics == (SnsMetrics { resolved: counter_after(old(metrics).resolved, targets@.len() as nat), ..*old(metrics) }),
            decreases m - j,
        {
            let device = &listed[j];
            assert(listed@.take(j + 1).drop_last() =~= listed@.take(j as int));
            assert(listed@.take(j + 1).last() == listed@[j as int]);
            if device.is_active && !device.endpoint_arn.as_str().is_empty()
                && device.endpoint_is_supported_for_platform() {
                metrics.inc_resolved();
                targets.push(device.duplicate());
                proof {
                    assert(targets@ =~= start + eligible_devices(listed@.take(j + 1)));
                }
            } else {
                proof {
                    assert(targets@ =~= start + eligible_devices(listed@.take(j + 1)));
                }
            }
            j = j + 1;
        }
        proof {
            assert(listed@.take(m as int) =~= listed@);
            assert(all_users.take(i + 1).drop_last() =~= all_users.take(i as int));
            assert(all_users.take(i + 1).last() == key);
        }
        i = i + 1;
    }
    proof {
        assert(all_users.take(n as int) =~= all_users);
    }
    targets
}

/// What a dispatch to SNS did.
#[derive(Debug)]
pub enum SnsDispatchReport {
    /// The event's unit id is no UUID: nothing was enqueued.
    InvalidUnitId,
    /// No device can receive the alert: nothing was enqueued.
    NoTargets,
    /// The targets were handed to the broadcaster.
    Enqueued { target_count: usize, outcome: Result<(), BroadcastClosed> },
}

/// Fans alerts out to the push devices of the users allowed their unit.
pub struct SnsDispatcher {
    broadcaster: SnsBroadcaster,
}

impl SnsDispatcher {
    /// The broadcaster through which this dispatcher enqueues deliveries.
    pub closed spec fn carrier(self) -> SnsBroadcaster {
        self.broadcaster
    }

    pub fn new(broadcaster: SnsBroadcaster) -> (r: Self)
        ensures
            r.carrier() == broadcaster,
    {
        SnsDispatcher { broadcaster }
    }

    /// The broadcaster that carries the deliveries.
    pub fn broadcaster(&self) -> (b: &SnsBroadcaster)
        ensures
            *b == self.carrier(),
    {
        &self.broadcaster
    }

    /// Resolves the push targets of the event's unit and enqueues one
    /// delivery for each.
    pub fn dispatch_event(
        &mut self,
        permissions: &PermissionCache,
        devices: &UserDevicesCache,
        metrics: &mut SnsMetrics,
        event: &AlertEvent,
    ) -> (report: SnsDispatchReport)
        ensures
            final(self).carrier().slots() == old(self).carrier().slots(),
            match uuid_text_value(event.unit_id@) {
                None => report is InvalidUnitId && *final(metrics) == *old(metrics)
                    && final(self).carrier().sends() == old(self).carrier().sends(),
                Some(unit) => {
                    let t = sns_targets(permissions@, devices@, unit);
                    if t.len() == 0 {
                        report is NoTargets && *final(metrics) == *old(metrics)
                            && final(self).carrier().sends() == old(self).carrier().sends()
                    } else {
                        &&& final(metrics).resolved == counter_after(old(metrics).resolved, t.len() as nat)
                        &&& final(metrics).lagged == old(metrics).lagged
                        &&& final(metrics).published == old(metrics).published
                        &&& final(metrics).failed == old(metrics).failed
                        &&& match report {
                            SnsDispatchReport::Enqueued { target_count, outcome } => {
                                &&& target_count == t.len()
                                &&& final(self).carrier().sends() == old(self).carrier().sends() + alert_sends(*event, t, outcome)
                                &&& outcome is Ok ==> final(metrics).enqueued == counter_after(old(metrics).enqueued, t.len() as nat)
                                &&& outcome matches Err(e) ==> e.delivered < t.len() && final(metrics).enqueued
                                    == counter_after(old(metrics).enqueued, e.delivered as nat)
                            },
                            _ => false,
                        }
                    }
                },
            },
    {
        let unit = match parse_uuid(event.unit_id.as_str()) {
            Some(unit) => unit,
            None => {
                return SnsDispatchReport::InvalidUnitId;
            },
        };
        let targets = resolve_targets(permissions, devices, unit, metrics);
        if targets.len() == 0 {
            return SnsDispatchReport::NoTargets;
        }
        let target_count = targets.len();
        let outcome = self.broadcaster.send_alert(event, targets, metrics);
        SnsDispatchReport::Enqueued { target_count, outcome }
    }
}


pub proof fn lemma_eligible_devices(s: Seq<UserDevice>, d: UserDevice)
    ensures
        eligible_devices(s).contains(d) <==> s.contains(d) && eligible(d),
    decreases s.len(),
{
    if s.len() > 0 {
        lemma_eligible_devices(s.drop_last(), d);
        let w = eligible_devices(s.drop_last());
        let t: Seq<UserDevice> = if eligible(s.last()) { seq![s.last()] } else { Seq::empty() };
        if (w + t).contains(d) {
            let i = choose|i: int| 0 <= i < (w + t).len() && (w + t)[i] == d;
            if i < w.len() {
                assert(w[i] == d);
                assert(w.contains(d));
                let j = choose|j: int| 0 <= j < s.drop_last().len() && s.drop_last()[j] == d;
                assert(s.drop_last()[j] == s[j]);
            } else {
                assert(s[s.len() - 1] == d);
            }
        }
        if s.contains(d) && eligible(d) {
            let j = choose|j: int| 0 <= j < s.len() && s[j] == d;
            if j < s.len() - 1 {
                assert(s.drop_last()[j] == d);
                assert(s.drop_last().contains(d));
                let i = choose|i: int| 0 <= i < w.len() && w[i] == d;
                assert((w + t)[i] == d);
            } else {
                assert(s.last() == d);
                assert((w + t)[w.len() as int] == d);
            }
        }
    }
}

pub proof fn lemma_targets_for_users(users: Seq<UserKey>, devices: Map<UserKey, Seq<UserDevice>>, d: UserDevice)
    ensures
        targets_for_users(users, devices).contains(d) <==> eligible(d) && exists|j: int|
            0 <= j < users.len() && #[trigger] devices_listed(devices, users[j]).contains(d),
    decreases users.len(),
{
    if users.len() > 0 {
        let p = users.drop_last();
        lemma_targets_for_users(p, devices, d);
        let w = targets_for_users(p, devices);
        let t = eligible_devices(devices_listed(devices, users.last()));
        lemma_eligible_devices(devices_listed(devices, users.last()), d);
        if (w + t).contains(d) {
            let i = choose|i: int| 0 <= i < (w + t).len() && (w + t)[i] == d;
            if i < w.len() {
                assert(w[i] == d);
                assert(w.contains(d));
                let j = choose|j: int| 0 <= j < p.len() && #[trigger] devices_listed(devices, p[j]).contains(d);
                assert(p[j] == users[j]);
            } else {
                assert(t[i - w.len()] == d);
                assert(t.contains(d));
                assert(users[users.len() - 1] == users.last());
            }
        }
        if eligible(d) && exists|j: int| 0 <= j < users.len() && #[trigger] devices_listed(devices, users[j]).contains(d) {
            let j = choose|j: int| 0 <= j < users.len() && #[trigger] devices_listed(devices, users[j]).contains(d);
            if j < users.len() - 1 {
                assert(p[j] == users[j]);
                assert(w.contains(d));
                let i = choose|i: int| 0 <= i < w.len() && w[i] == d;
                assert((w + t)[i] == d);
            } else {
                assert(users[j] == users.last());
                assert(t.contains(d));
                let i = choose|i: int| 0 <= i < t.len() && t[i] == d;
                assert((w + t)[w.len() + i] == d);
            }
        }
    }
}

/// A device is a push target of an alert for a unit exactly when it can
/// receive a push and belongs to a user allowed the unit: alerts reach the
/// devices of authorized users, and no other.
pub proof fn law_targets_authorized(
    perm: PermissionView,
    devices: Map<UserKey, Seq<UserDevice>>,
    unit: u128,
    d: UserDevice,
)
    ensures
        sns_targets(perm, devices, unit).contains(d) <==> eligible(d) && perm.users.contains_key(unit) && exists|j: int|
            0 <= j < perm.users[unit].len() && #[trigger] devices_listed(devices, perm.users[unit][j]).contains(d),
{
    let users = if perm.users.contains_key(unit) { perm.users[unit] } else { Seq::<UserKey>::empty() };
    lemma_targets_for_users(users, devices, d);
}

/// A push target of an alert is an active device with an endpoint ARN that
/// suits its platform: an Android device needs a GCM endpoint, an iOS device
/// a GCM, APNS or APNS_SANDBOX one (platforms read in any ASCII case), and
/// no other platform is ever a target.
pub proof fn law_push_targets_have_usable_endpoints(
    perm: PermissionView,
    devices: Map<UserKey, Seq<UserDevice>>,
    unit: u128,
    d: UserDevice,
)
    requires
        sns_targets(perm, devices, unit).contains(d),
    ensures
        d.is_active,
        d.endpoint_arn@.len() > 0,
        same_ignoring_ascii_case(d.platform@, "android"@) || same_ignoring_ascii_case(d.platform@, "ios"@),
        same_ignoring_ascii_case(d.platform@, "android"@) ==> has_infix(d.endpoint_arn@, ":endpoint/GCM/"@),
        same_ignoring_ascii_case(d.platform@, "ios"@) ==> has_infix(d.endpoint_arn@, ":endpoint/GCM/"@) || has_infix(
            d.endpoint_arn@,
            ":endpoint/APNS/"@,
        ) || has_infix(d.endpoint_arn@, ":endpoint/APNS_SANDBOX/"@),
{
    law_targets_authorized(perm, devices, unit, d);
}

} // verus!
