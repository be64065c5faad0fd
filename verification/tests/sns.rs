use alert_distributor::kafka::updates::{apply_user_device_update, UpdateOutcome, UserDeviceUpdate, UserDeviceUpdateData};
use alert_distributor::models::alert_event::{AlertEvent, Timestamp};
use alert_distributor::permissions::cache::UserDevicesCache;
use alert_distributor::permissions::loader::{cache_from_rows, PermissionRow};
use alert_distributor::sns::client::{
    after_failure, batch_complete, follow_up, next_worker_step, will_retry, DeliveryFollowUp, PublishStep,
    RetryState, WorkerEvent, WorkerStep,
};
use alert_distributor::sns::dispatcher::{resolve_targets, SnsDispatchReport, SnsDispatcher};
use alert_distributor::sns::metrics::SnsMetrics;
use alert_distributor::sns::models::{message_for_event, EndpointChannel, SnsError, UserDevice};
use alert_distributor::sns::publisher::{after_send, BroadcastClosed, SendStep, SnsBroadcaster};
use uuid::Uuid;

const UNIT: &str = "18961401-9405-4124-8d2a-e2c445d11e1a";
const GCM_ARN: &str = "arn:aws:sns:us-east-1:123456789012:endpoint/GCM/app/abc";
const APNS_ARN: &str = "arn:aws:sns:us-east-1:123456789012:endpoint/APNS/app/abc";
const SANDBOX_ARN: &str = "arn:aws:sns:us-east-1:123456789012:endpoint/APNS_SANDBOX/app/abc";

fn unit() -> u128 {
    Uuid::parse_str(UNIT).unwrap().as_u128()
}

fn event(alert_name: Option<&str>, unit_name: Option<&str>) -> AlertEvent {
    AlertEvent {
        id: 1,
        organization_id: 2,
        unit_id: UNIT.to_string(),
        unit_name: unit_name.map(|s| s.to_string()),
        rule_id: 3,
        source_type: "event".to_string(),
        source_id: 4,
        alert_type: "64f9709b-8d4c-4b2e-b1ab-44b015527ba5".to_string(),
        alert_name: alert_name.map(|s| s.to_string()),
        payload: serde_json::Value::Null,
        occurred_at: Timestamp { seconds: 0, nanos: 0 },
    }
}

fn device(id: u128, user: u128, platform: &str, arn: &str, active: bool) -> UserDevice {
    UserDevice {
        id,
        user_id: user,
        device_token: "tok".to_string(),
        platform: platform.to_string(),
        endpoint_arn: arn.to_string(),
        is_active: active,
    }
}

#[test]
fn notification_title_and_body_follow_the_fallbacks() {
    let m = message_for_event(&event(Some("Ingreso a geocerca"), Some("Camioneta Juan")));
    assert_eq!(m.title, "Ingreso a geocerca");
    assert_eq!(m.body, "Camioneta Juan");
    let fallback = message_for_event(&event(Some("   "), None));
    assert_eq!(fallback.title, "64f9709b-8d4c-4b2e-b1ab-44b015527ba5");
    assert_eq!(fallback.body, "");
    let blank_unit = message_for_event(&event(None, Some("\t\u{3000}")));
    assert_eq!(blank_unit.title, "64f9709b-8d4c-4b2e-b1ab-44b015527ba5");
    assert_eq!(blank_unit.body, "");
}

#[test]
fn errors_are_classified_from_their_text() {
    assert!(matches!(SnsError::classify("xx InvalidEndpointException yy"), SnsError::InvalidEndpoint(_)));
    assert!(matches!(SnsError::classify("EndpointDisabled"), SnsError::InvalidEndpoint(_)));
    assert!(matches!(SnsError::classify("ThrottlingException"), SnsError::Throttled));
    assert!(matches!(SnsError::classify("AccessDenied here"), SnsError::AuthError(_)));
    assert!(matches!(SnsError::classify("AuthorizationError"), SnsError::AuthError(_)));
    assert!(matches!(SnsError::classify("NetworkingError"), SnsError::NetworkError(_)));
    match SnsError::classify("boom") {
        SnsError::Unknown(m) => assert_eq!(m, "boom"),
        other => panic!("unexpected {:?}", other),
    }
    assert_eq!(SnsError::InvalidEndpoint("x".to_string()).describe(), "InvalidEndpoint: x");
    assert_eq!(SnsError::Throttled.describe(), "Throttled");
    assert_eq!(SnsError::Unknown("y".to_string()).describe(), "Unknown: y");
}

#[test]
fn retries_double_the_delay_until_exhausted() {
    let start = RetryState::initial();
    assert_eq!(start, RetryState { retries: 0, delay_ms: 100 });
    match after_failure(start, 3, "ThrottlingException") {
        PublishStep::Retry { delay_ms, next } => {
            assert_eq!(delay_ms, 100);
            assert_eq!(next, RetryState { retries: 1, delay_ms: 200 });
        }
        other => panic!("unexpected {:?}", other),
    }
    match after_failure(RetryState { retries: 3, delay_ms: 800 }, 3, "ThrottlingException") {
        PublishStep::GiveUp(SnsError::Throttled) => {}
        other => panic!("unexpected {:?}", other),
    }
    assert!(matches!(after_failure(start, 3, "InvalidEndpointException"), PublishStep::GiveUp(SnsError::InvalidEndpoint(_))));
    assert!(matches!(after_failure(start, 3, "AccessDenied"), PublishStep::GiveUp(SnsError::AuthError(_))));
    assert!(matches!(after_failure(start, 0, "boom"), PublishStep::GiveUp(SnsError::Unknown(_))));
}

#[test]
fn delivery_outcomes_lead_to_follow_ups() {
    assert_eq!(follow_up(&Ok(())), DeliveryFollowUp::Delivered);
    assert_eq!(follow_up(&Err(SnsError::InvalidEndpoint("e".to_string()))), DeliveryFollowUp::DeactivateDevice);
    assert_eq!(follow_up(&Err(SnsError::Throttled)), DeliveryFollowUp::Failed);
    assert!(!batch_complete(255));
    assert!(batch_complete(256));
}

#[test]
fn endpoints_suit_their_platforms() {
    assert_eq!(device(1, 1, "android", GCM_ARN, true).endpoint_channel(), Some(EndpointChannel::Gcm));
    assert_eq!(device(1, 1, "ios", SANDBOX_ARN, true).endpoint_channel(), Some(EndpointChannel::ApnsSandbox));
    assert_eq!(device(1, 1, "ios", APNS_ARN, true).endpoint_channel(), Some(EndpointChannel::Apns));
    assert_eq!(device(1, 1, "ios", "arn:x", true).endpoint_channel(), None);
    assert!(device(1, 1, "Android", GCM_ARN, true).endpoint_is_supported_for_platform());
    assert!(!device(1, 1, "android", APNS_ARN, true).endpoint_is_supported_for_platform());
    assert!(device(1, 1, "iOS", APNS_ARN, true).endpoint_is_supported_for_platform());
    assert!(device(1, 1, "ios", GCM_ARN, true).endpoint_is_supported_for_platform());
    assert!(!device(1, 1, "web", GCM_ARN, true).endpoint_is_supported_for_platform());
}

fn world() -> (alert_distributor::permissions::cache::PermissionCache, UserDevicesCache) {
    let permissions = cache_from_rows(vec![
        PermissionRow { organization_id: 5, user_id: 7, unit_id: unit() },
        PermissionRow { organization_id: 5, user_id: 6, unit_id: unit() },
        PermissionRow { organization_id: 5, user_id: 8, unit_id: unit() + 1 },
    ]);
    let mut devices = UserDevicesCache::empty();
    devices.upsert(5, 7, device(70, 7, "android", GCM_ARN, true));
    devices.upsert(5, 7, device(71, 7, "android", "", true));
    devices.upsert(5, 7, device(72, 7, "android", APNS_ARN, true));
    devices.upsert(5, 7, device(73, 7, "ios", APNS_ARN, false));
    devices.upsert(5, 6, device(60, 6, "ios", SANDBOX_ARN, true));
    devices.upsert(5, 8, device(80, 8, "ios", APNS_ARN, true));
    (permissions, devices)
}

#[test]
fn targets_are_eligible_devices_of_allowed_users() {
    let (permissions, devices) = world();
    let mut metrics = SnsMetrics::new();
    let targets = resolve_targets(&permissions, &devices, unit(), &mut metrics);
    // users sorted: (5,6) then (5,7)
    assert_eq!(targets.iter().map(|d| d.id).collect::<Vec<_>>(), vec![60, 70]);
    assert_eq!(metrics.resolved, 2);
    assert!(resolve_targets(&permissions, &devices, 12345, &mut metrics).is_empty());
    assert_eq!(metrics.resolved, 2);
}

#[test]
fn dispatch_enqueues_one_delivery_per_target() {
    let (permissions, devices) = world();
    let mut metrics = SnsMetrics::new();
    let mut dispatcher = SnsDispatcher::new(SnsBroadcaster::new(16));
    let mut rx = dispatcher.broadcaster().subscribe();
    match dispatcher.dispatch_event(&permissions, &devices, &mut metrics, &event(None, None)) {
        SnsDispatchReport::Enqueued { target_count, outcome } => {
            assert_eq!(target_count, 2);
            assert!(outcome.is_ok());
        }
        other => panic!("unexpected {:?}", other),
    }
    assert_eq!(metrics.enqueued, 2);
    let (first, ev) = rx.try_recv().unwrap();
    assert_eq!(first.id, 60);
    assert_eq!(ev.unit_id, UNIT);
    assert_eq!(rx.try_recv().unwrap().0.id, 70);
}

#[test]
fn dispatch_without_receiver_reports_closed_channel() {
    let (permissions, devices) = world();
    let mut metrics = SnsMetrics::new();
    let mut dispatcher = SnsDispatcher::new(SnsBroadcaster::new(16));
    match dispatcher.dispatch_event(&permissions, &devices, &mut metrics, &event(None, None)) {
        SnsDispatchReport::Enqueued { target_count, outcome } => {
            assert_eq!(target_count, 2);
            assert_eq!(outcome.unwrap_err().delivered, 0);
        }
        other => panic!("unexpected {:?}", other),
    }
    assert_eq!(metrics.enqueued, 0);
    assert_eq!(metrics.resolved, 2);
}

#[test]
fn dispatch_skips_invalid_units_and_units_without_targets() {
    let (permissions, devices) = world();
    let mut metrics = SnsMetrics::new();
    let mut dispatcher = SnsDispatcher::new(SnsBroadcaster::new(4));
    let mut bad = event(None, None);
    bad.unit_id = "nope".to_string();
    assert!(matches!(
        dispatcher.dispatch_event(&permissions, &devices, &mut metrics, &bad),
        SnsDispatchReport::InvalidUnitId
    ));
    let mut other_unit = event(None, None);
    other_unit.unit_id = Uuid::from_u128(999).to_string();
    assert!(matches!(
        dispatcher.dispatch_event(&permissions, &devices, &mut metrics, &other_unit),
        SnsDispatchReport::NoTargets
    ));
    assert_eq!(metrics, SnsMetrics::new());
}

#[test]
fn metrics_wrap_and_reset_per_window() {
    let mut metrics = SnsMetrics::new();
    metrics.inc_resolved();
    metrics.inc_enqueued();
    metrics.inc_published();
    metrics.inc_failed();
    metrics.add_lagged(5);
    metrics.add_lagged(u64::MAX);
    let window = metrics.take_window();
    assert_eq!(window.resolved, 1);
    assert_eq!(window.enqueued, 1);
    assert_eq!(window.published, 1);
    assert_eq!(window.failed, 1);
    assert_eq!(window.lagged, 4);
    assert_eq!(metrics, SnsMetrics::new());
}

fn update(event_type: &str, entity: &str, org: Option<u128>, data: Option<UserDeviceUpdateData>) -> UserDeviceUpdate {
    UserDeviceUpdate {
        event_type: event_type.to_string(),
        entity: entity.to_string(),
        organization_id: org,
        data,
    }
}

fn data(id: u128, active: bool, arn: Option<&str>) -> UserDeviceUpdateData {
    UserDeviceUpdateData {
        id,
        user_id: 7,
        device_token: "tok".to_string(),
        platform: "android".to_string(),
        endpoint_arn: arn.map(|a| a.to_string()),
        is_active: active,
    }
}

#[test]
fn device_updates_upsert_and_remove() {
    let mut cache = UserDevicesCache::empty();
    match apply_user_device_update(update("INSERT", "User_Device", Some(5), Some(data(1, true, None))), &mut cache) {
        UpdateOutcome::Upserted { organization_id, device } => {
            assert_eq!(organization_id, 5);
            assert_eq!(device.endpoint_arn, "");
        }
        other => panic!("unexpected {:?}", other),
    }
    assert_eq!(cache.devices_for(5, 7).unwrap().len(), 1);
    assert!(matches!(
        apply_user_device_update(update("UPDATE", "", None, Some(data(2, true, Some(GCM_ARN)))), &mut cache),
        UpdateOutcome::MissingOrganization { device_id: 2 }
    ));
    assert!(matches!(
        apply_user_device_update(update("UPDATE", "unit", Some(5), Some(data(2, true, None))), &mut cache),
        UpdateOutcome::IgnoredUnknownEntity
    ));
    assert!(matches!(
        apply_user_device_update(update("UPDATE", "", Some(5), None), &mut cache),
        UpdateOutcome::InvalidData
    ));
    assert!(matches!(
        apply_user_device_update(update("delete", "", Some(5), Some(data(1, true, None))), &mut cache),
        UpdateOutcome::Removed { device_id: 1, removed: true }
    ));
    assert!(cache.devices_for(5, 7).unwrap().is_empty());
    assert!(matches!(
        apply_user_device_update(update("UPDATE", "", Some(5), Some(data(1, false, None))), &mut cache),
        UpdateOutcome::Removed { device_id: 1, removed: false }
    ));
}

#[test]
fn after_send_continues_finishes_or_stops() {
    assert_eq!(after_send(true, 0, 3), SendStep::Continue(1));
    assert_eq!(after_send(true, 2, 3), SendStep::Finished);
    assert_eq!(after_send(false, 1, 3), SendStep::Stop(BroadcastClosed { delivered: 1 }));
}

#[test]
fn send_alert_hands_each_device_with_the_event_in_order() {
    let mut broadcaster = SnsBroadcaster::new(8);
    let mut rx = broadcaster.subscribe();
    let mut metrics = SnsMetrics::new();
    let devices = vec![
        device(1, 5, "android", GCM_ARN, true),
        device(2, 5, "ios", APNS_ARN, true),
        device(3, 6, "ios", SANDBOX_ARN, true),
    ];
    assert_eq!(broadcaster.send_alert(&event(Some("A"), None), devices, &mut metrics), Ok(()));
    assert_eq!(metrics.enqueued, 3);
    for id in [1u128, 2, 3] {
        let (d, ev) = rx.try_recv().unwrap();
        assert_eq!(d.id, id);
        assert_eq!(ev.alert_name.as_deref(), Some("A"));
    }
    assert!(rx.try_recv().is_err());
    assert_eq!(broadcaster.send_alert(&event(None, None), Vec::new(), &mut metrics), Ok(()));
    assert_eq!(metrics.enqueued, 3);
}

#[test]
fn send_alert_stops_at_the_first_refused_send() {
    let mut broadcaster = SnsBroadcaster::new(8);
    let mut metrics = SnsMetrics::new();
    let devices = vec![device(1, 5, "android", GCM_ARN, true), device(2, 5, "ios", APNS_ARN, true)];
    assert_eq!(
        broadcaster.send_alert(&event(None, None), devices, &mut metrics),
        Err(BroadcastClosed { delivered: 0 })
    );
    assert_eq!(metrics.enqueued, 0);
}

#[test]
fn dispatch_without_targets_sends_nothing() {
    let (permissions, devices) = world();
    let mut metrics = SnsMetrics::new();
    let mut dispatcher = SnsDispatcher::new(SnsBroadcaster::new(8));
    let mut rx = dispatcher.broadcaster().subscribe();
    let mut other_unit = event(None, None);
    other_unit.unit_id = Uuid::from_u128(999).to_string();
    assert!(matches!(
        dispatcher.dispatch_event(&permissions, &devices, &mut metrics, &other_unit),
        SnsDispatchReport::NoTargets
    ));
    let mut bad = event(None, None);
    bad.unit_id = "not-a-uuid".to_string();
    assert!(matches!(
        dispatcher.dispatch_event(&permissions, &devices, &mut metrics, &bad),
        SnsDispatchReport::InvalidUnitId
    ));
    assert!(rx.try_recv().is_err());
    assert_eq!(metrics, SnsMetrics::new());
}

#[test]
fn will_retry_follows_the_retry_rules() {
    let state = RetryState::initial();
    assert!(will_retry(state, 3, "Throttling: rate exceeded"));
    assert!(!will_retry(state, 0, "Throttling: rate exceeded"));
    assert!(!will_retry(state, 3, "EndpointDisabled: Endpoint is disabled"));
    let exhausted = RetryState { retries: 3, delay_ms: u64::MAX };
    assert!(!will_retry(exhausted, 3, "Throttling: rate exceeded"));
}

#[test]
fn worker_steps_open_fill_and_flush_batches() {
    assert_eq!(next_worker_step(0, WorkerEvent::Received), WorkerStep::Add);
    assert_eq!(next_worker_step(10, WorkerEvent::Received), WorkerStep::Add);
    assert_eq!(next_worker_step(255, WorkerEvent::Received), WorkerStep::AddAndFlush);
    assert_eq!(next_worker_step(0, WorkerEvent::Closed), WorkerStep::Stop);
    assert_eq!(next_worker_step(4, WorkerEvent::Closed), WorkerStep::Flush);
    assert_eq!(next_worker_step(4, WorkerEvent::Lagged(9)), WorkerStep::CountLagged(9));
    assert_eq!(next_worker_step(0, WorkerEvent::Lagged(2)), WorkerStep::CountLagged(2));
    assert_eq!(next_worker_step(4, WorkerEvent::TimedOut), WorkerStep::Flush);
    assert_eq!(next_worker_step(0, WorkerEvent::TimedOut), WorkerStep::Wait);
}

#[test]
fn windows_report_every_increment_once() {
    let mut split = SnsMetrics::new();
    let mut whole = SnsMetrics::new();
    for _ in 0..3 {
        split.inc_published();
        whole.inc_published();
    }
    let first = split.take_window();
    for _ in 0..2 {
        split.inc_published();
        whole.inc_published();
    }
    let second = split.take_window();
    assert_eq!(first.published + second.published, whole.take_window().published);
    assert_eq!(first.published, 3);
    assert_eq!(second.published, 2);
}
