use alert_distributor::errors::AppError;
use alert_distributor::models::alert_event::{AlertEvent, Timestamp};
use alert_distributor::permissions::loader::{cache_from_rows, PermissionRow};
use alert_distributor::websocket::auth::{auth_context_from_claims, bearer_token, AuthContext, JwtClaims};
use alert_distributor::websocket::dispatcher::{
    client_message, AlertDispatcher, ClientAlertMessage, DispatchReport, SendOutcome,
};
use alert_distributor::websocket::handler::{
    authorize_handshake, next_socket_action, HandshakeRejection, SocketAction, SocketEvent,
};
use alert_distributor::websocket::registry::ConnectionRegistry;
use tokio::sync::mpsc;
use uuid::Uuid;

const UNIT: &str = "33333333-3333-3333-3333-333333333333";

fn unit_id() -> u128 {
    Uuid::parse_str(UNIT).unwrap().as_u128()
}

fn event(unit: &str, alert_name: Option<&str>, unit_name: Option<&str>) -> AlertEvent {
    AlertEvent {
        id: 1,
        organization_id: 2,
        unit_id: unit.to_string(),
        unit_name: unit_name.map(|s| s.to_string()),
        rule_id: 3,
        source_type: "event".to_string(),
        source_id: 4,
        alert_type: "ignition_off".to_string(),
        alert_name: alert_name.map(|s| s.to_string()),
        payload: serde_json::from_str(r#"{"engine":"off","speed":0}"#).unwrap(),
        occurred_at: Timestamp { seconds: 1_775_571_600, nanos: 0 },
    }
}

#[test]
fn registry_indexes_connections_by_unit_and_user() {
    let mut registry = ConnectionRegistry::new();
    let (tx1, _rx1) = mpsc::channel::<ClientAlertMessage>(4);
    let (tx2, _rx2) = mpsc::channel::<ClientAlertMessage>(4);
    let a = registry.add_connection(10, 20, vec![1, 2], tx1);
    let b = registry.add_connection(11, 20, vec![2, 3], tx2);
    assert_ne!(a, b);
    assert_eq!(registry.connection_count(), 2);
    let ids = |r: &ConnectionRegistry, unit: u128| -> Vec<u128> {
        r.senders_for_unit(&unit).into_iter().map(|(id, _)| id).collect()
    };
    assert_eq!(ids(&registry, 1), vec![a]);
    assert_eq!(ids(&registry, 2), vec![a, b]);
    assert_eq!(ids(&registry, 3), vec![b]);
    assert!(ids(&registry, 4).is_empty());
    assert_eq!(registry.connections_for_user(20, 10), vec![a]);
    assert_eq!(registry.connections_for_user(20, 11), vec![b]);

    let removed = registry.remove_connection(&a).expect("registered");
    assert_eq!(removed.connection_id, a);
    assert_eq!(removed.unit_ids, vec![1, 2]);
    assert_eq!(registry.connection_count(), 1);
    assert!(ids(&registry, 1).is_empty());
    assert_eq!(ids(&registry, 2), vec![b]);
    assert!(registry.connections_for_user(20, 10).is_empty());
    assert!(registry.remove_connection(&a).is_none());
}

#[test]
fn registry_lists_a_repeated_unit_as_often_as_given() {
    let mut registry = ConnectionRegistry::new();
    let (tx, _rx) = mpsc::channel::<ClientAlertMessage>(4);
    registry.register(7, 1, 1, vec![5, 5], tx);
    let ids: Vec<u128> = registry.senders_for_unit(&5).into_iter().map(|(id, _)| id).collect();
    assert_eq!(ids, vec![7, 7]);
    registry.remove_connection(&7);
    assert!(registry.senders_for_unit(&5).is_empty());
}

#[test]
fn registering_a_taken_id_replaces_the_connection() {
    let mut registry = ConnectionRegistry::new();
    let (tx1, _rx1) = mpsc::channel::<ClientAlertMessage>(4);
    let (tx2, _rx2) = mpsc::channel::<ClientAlertMessage>(4);
    registry.register(7, 1, 1, vec![5], tx1);
    registry.register(7, 2, 1, vec![6], tx2);
    assert_eq!(registry.connection_count(), 1);
    assert!(registry.senders_for_unit(&5).is_empty());
    assert_eq!(registry.senders_for_unit(&6).len(), 1);
    assert!(registry.connections_for_user(1, 1).is_empty());
    assert_eq!(registry.connections_for_user(1, 2), vec![7]);
}

#[test]
fn register_then_remove_restores_the_registry() {
    let mut registry = ConnectionRegistry::new();
    let (tx1, _rx1) = mpsc::channel::<ClientAlertMessage>(4);
    let (tx2, _rx2) = mpsc::channel::<ClientAlertMessage>(4);
    registry.register(1, 1, 1, vec![9], tx1);
    registry.register(2, 1, 1, vec![9], tx2);
    registry.remove_connection(&2);
    assert_eq!(registry.connection_count(), 1);
    assert_eq!(registry.senders_for_unit(&9).len(), 1);
    assert_eq!(registry.connections_for_user(1, 1), vec![1]);
}

#[test]
fn client_message_uses_fallback_title_and_body() {
    let message = client_message(&event(UNIT, Some("   "), None));
    assert_eq!(message.message_type, "alert");
    assert_eq!(message.unit_id, UNIT);
    assert_eq!(message.title, "ignition_off");
    assert_eq!(message.body, "");
    assert_eq!(message.data["engine"], "off");
    assert_eq!(message.occurred_at, Timestamp { seconds: 1_775_571_600, nanos: 0 });

    let named = client_message(&event(UNIT, Some("Ingreso a geocerca"), Some("Camioneta Juan")));
    assert_eq!(named.title, "Ingreso a geocerca");
    assert_eq!(named.body, "Camioneta Juan");
}

#[test]
fn dispatch_sends_to_unit_subscribers_only() {
    let mut registry = ConnectionRegistry::new();
    let (tx1, mut rx1) = mpsc::channel::<ClientAlertMessage>(4);
    let (tx2, mut rx2) = mpsc::channel::<ClientAlertMessage>(4);
    registry.register(1, 1, 1, vec![unit_id()], tx1);
    registry.register(2, 1, 1, vec![unit_id() + 1], tx2);
    let mut dispatcher = AlertDispatcher::new();
    match dispatcher.dispatch_event(&mut registry, &event(UNIT, Some("Engine is OFF"), Some("Unit Name"))) {
        DispatchReport::Dispatched { deliveries, sent_count } => {
            assert_eq!(sent_count, 1);
            assert_eq!(deliveries.len(), 1);
            assert_eq!(deliveries[0].connection_id, 1);
            assert_eq!(deliveries[0].outcome, SendOutcome::Sent);
        }
        other => panic!("unexpected report {:?}", other),
    }
    let got = rx1.try_recv().expect("message delivered");
    assert_eq!(got.title, "Engine is OFF");
    assert_eq!(got.body, "Unit Name");
    assert!(rx2.try_recv().is_err());
}

#[test]
fn dispatch_drops_on_full_and_unregisters_closed() {
    let mut registry = ConnectionRegistry::new();
    let (full_tx, _full_rx) = mpsc::channel::<ClientAlertMessage>(1);
    let (closed_tx, closed_rx) = mpsc::channel::<ClientAlertMessage>(1);
    drop(closed_rx);
    registry.register(1, 1, 1, vec![unit_id()], full_tx);
    registry.register(2, 1, 1, vec![unit_id()], closed_tx);
    let mut dispatcher = AlertDispatcher::new();
    let first = dispatcher.dispatch_event(&mut registry, &event(UNIT, None, None));
    match first {
        DispatchReport::Dispatched { deliveries, sent_count } => {
            assert_eq!(sent_count, 1);
            assert_eq!(deliveries[1].outcome, SendOutcome::Closed);
        }
        other => panic!("unexpected report {:?}", other),
    }
    assert_eq!(registry.connection_count(), 1);
    let second = dispatcher.dispatch_event(&mut registry, &event(UNIT, None, None));
    match second {
        DispatchReport::Dispatched { deliveries, sent_count } => {
            assert_eq!(sent_count, 0);
            assert_eq!(deliveries[0].outcome, SendOutcome::Full);
        }
        other => panic!("unexpected report {:?}", other),
    }
    assert_eq!(registry.connection_count(), 1);
}

#[test]
fn dispatch_rejects_invalid_unit_and_reports_no_subscribers() {
    let mut registry = ConnectionRegistry::new();
    let mut dispatcher = AlertDispatcher::new();
    assert!(matches!(
        dispatcher.dispatch_event(&mut registry, &event("not-a-uuid", None, None)),
        DispatchReport::InvalidUnitId
    ));
    assert!(matches!(
        dispatcher.dispatch_event(&mut registry, &event(UNIT, None, None)),
        DispatchReport::NoSubscribers
    ));
}

#[test]
fn bearer_prefix_is_required() {
    assert_eq!(bearer_token("Bearer abc.def").unwrap(), "abc.def");
    assert_eq!(bearer_token("bearer xyz").unwrap(), "xyz");
    match bearer_token("Token abc") {
        Err(AppError::Jwt(m)) => assert_eq!(m, "missing Bearer token prefix"),
        other => panic!("unexpected {:?}", other),
    }
    assert!(bearer_token("BEARER abc").is_err());
}

fn claims(sub: Option<&str>, user: Option<&str>, org: Option<&str>) -> JwtClaims {
    JwtClaims {
        sub: sub.map(|s| s.to_string()),
        user_id: user.map(|s| s.to_string()),
        organization_id: org.map(|s| s.to_string()),
        exp: 0,
    }
}

const SUB: &str = "1de3e794-2555-4f77-9878-67fe2f934535";
const USER: &str = "2a99f2d0-8d32-43c1-8894-8b7dd7a54199";
const ORG: &str = "550e8400-e29b-41d4-a716-446655440000";

#[test]
fn claims_prefer_user_id_over_sub() {
    let ctx = auth_context_from_claims(&claims(Some(SUB), Some(USER), Some(ORG))).unwrap();
    assert_eq!(ctx.user_id, Uuid::parse_str(USER).unwrap().as_u128());
    assert_eq!(ctx.organization_id, Uuid::parse_str(ORG).unwrap().as_u128());
    let by_sub = auth_context_from_claims(&claims(Some(SUB), None, Some(ORG))).unwrap();
    assert_eq!(by_sub.user_id, Uuid::parse_str(SUB).unwrap().as_u128());
}

#[test]
fn claims_errors() {
    match auth_context_from_claims(&claims(None, None, Some(ORG))) {
        Err(AppError::Jwt(m)) => assert_eq!(m, "missing user_id claim"),
        other => panic!("unexpected {:?}", other),
    }
    match auth_context_from_claims(&claims(None, Some(USER), None)) {
        Err(AppError::Jwt(m)) => assert_eq!(m, "missing organization_id claim"),
        other => panic!("unexpected {:?}", other),
    }
    match auth_context_from_claims(&claims(None, Some("nope"), Some(ORG))) {
        Err(AppError::InvalidUuid(m)) => assert_eq!(m, "user_id claim"),
        other => panic!("unexpected {:?}", other),
    }
    match auth_context_from_claims(&claims(None, Some(USER), Some("nope"))) {
        Err(AppError::InvalidUuid(m)) => assert_eq!(m, "organization_id claim"),
        other => panic!("unexpected {:?}", other),
    }
}

#[test]
fn handshake_needs_auth_and_units() {
    let permissions = cache_from_rows(vec![PermissionRow { organization_id: 1, user_id: 2, unit_id: 3 }]);
    assert_eq!(authorize_handshake(None, &permissions).unwrap_err(), HandshakeRejection::Unauthorized);
    let stranger = AuthContext { user_id: 9, organization_id: 1 };
    assert_eq!(authorize_handshake(Some(stranger), &permissions).unwrap_err(), HandshakeRejection::Forbidden);
    let user = AuthContext { user_id: 2, organization_id: 1 };
    let (ctx, units) = authorize_handshake(Some(user), &permissions).unwrap();
    assert_eq!(ctx, user);
    assert_eq!(units, vec![3]);
}

#[test]
fn socket_events_lead_to_actions() {
    assert_eq!(next_socket_action(SocketEvent::Outbound, 60_000), SocketAction::Forward);
    assert_eq!(next_socket_action(SocketEvent::IncomingPing, 60_000), SocketAction::ReplyPong);
    assert_eq!(next_socket_action(SocketEvent::IncomingPong, 60_000), SocketAction::RecordPong);
    assert_eq!(next_socket_action(SocketEvent::IncomingData, 60_000), SocketAction::Ignore);
    assert_eq!(next_socket_action(SocketEvent::IncomingClose, 60_000), SocketAction::Close);
    assert_eq!(next_socket_action(SocketEvent::OutboundClosed, 60_000), SocketAction::Close);
    assert_eq!(next_socket_action(SocketEvent::SendFailed, 60_000), SocketAction::Close);
    assert_eq!(
        next_socket_action(SocketEvent::HeartbeatTick { since_pong_ms: 59_999 }, 60_000),
        SocketAction::SendPing
    );
    assert_eq!(
        next_socket_action(SocketEvent::HeartbeatTick { since_pong_ms: 60_000 }, 60_000),
        SocketAction::Close
    );
}

#[test]
fn dispatch_reaches_the_other_targets_past_full_and_closed_channels() {
    let mut registry = ConnectionRegistry::new();
    let (full_tx, _full_rx) = mpsc::channel::<ClientAlertMessage>(1);
    full_tx.try_send(client_message(&event(UNIT, None, None))).unwrap();
    let (closed_tx, closed_rx) = mpsc::channel::<ClientAlertMessage>(1);
    drop(closed_rx);
    let (open_tx, mut open_rx) = mpsc::channel::<ClientAlertMessage>(1);
    registry.register(1, 1, 1, vec![unit_id()], full_tx);
    registry.register(2, 1, 1, vec![unit_id()], closed_tx);
    registry.register(3, 1, 1, vec![unit_id()], open_tx);
    let mut dispatcher = AlertDispatcher::new();
    match dispatcher.dispatch_event(&mut registry, &event(UNIT, Some("Engine is OFF"), None)) {
        DispatchReport::Dispatched { deliveries, sent_count } => {
            assert_eq!(sent_count, 1);
            let outcomes: Vec<_> = deliveries.iter().map(|d| (d.connection_id, d.outcome)).collect();
            assert_eq!(
                outcomes,
                vec![(1, SendOutcome::Full), (2, SendOutcome::Closed), (3, SendOutcome::Sent)]
            );
        }
        other => panic!("unexpected report {:?}", other),
    }
    let got = open_rx.try_recv().expect("third target reached");
    assert_eq!(got.message_type, "alert");
    assert_eq!(got.title, "Engine is OFF");
    assert_eq!(registry.connection_count(), 2);
}

#[test]
fn senders_for_unit_gives_each_connection_its_own_channel() {
    let mut registry = ConnectionRegistry::new();
    let (tx_a, mut rx_a) = mpsc::channel::<ClientAlertMessage>(2);
    let (tx_b, mut rx_b) = mpsc::channel::<ClientAlertMessage>(2);
    let a = registry.add_connection(1, 1, vec![unit_id()], tx_a);
    let b = registry.add_connection(2, 1, vec![unit_id(), 7], tx_b);
    let targets = registry.senders_for_unit(&unit_id());
    assert_eq!(targets.iter().map(|t| t.0).collect::<Vec<_>>(), vec![a, b]);
    let mut for_a = client_message(&event(UNIT, None, None));
    for_a.body = "a".to_string();
    let mut for_b = for_a.clone();
    for_b.body = "b".to_string();
    targets[0].1.try_send(for_a).unwrap();
    targets[1].1.try_send(for_b).unwrap();
    assert_eq!(rx_a.try_recv().unwrap().body, "a");
    assert_eq!(rx_b.try_recv().unwrap().body, "b");
    assert_eq!(registry.senders_for_unit(&7).len(), 1);
}
