//! The decisions of the websocket endpoint: whether a handshake is accepted,
//! and what each event of an open connection leads to.

use vstd::prelude::*;

use crate::keyed::UserKey;
use crate::permissions::cache::PermissionCache;
use crate::websocket::auth::AuthContext;

verus! {

/// Why a handshake is refused.
#[derive(Clone, Copy, Debug, PartialEq, Eq, Structural)]
pub enum HandshakeRejection {
    /// No valid bearer token: answered 401.
    Unauthorized,
    /// The user may see no unit: answered 403.
    Forbidden,
}

/// Decides a handshake: refused as unauthorized without a verified user,
/// as forbidden where the snapshot gives the user no unit; else accepted
/// with the user's units.
pub fn authorize_handshake(auth: Option<AuthContext>, permissions: &PermissionCache) -> (r: Result<
    (AuthContext, Vec<u128>),
    HandshakeRejection,
>)
    ensures
        auth is None ==> r == Err::<(AuthContext, Vec<u128>), HandshakeRejection>(HandshakeRejection::Unauthorized),
        auth matches Some(a) ==> ({
            let key = UserKey { organization_id: a.organization_id, user_id: a.user_id };
            if permissions@.units.contains_key(key) && permissions@.units[key].len() > 0 {
                r matches Ok(accepted) && accepted.0 == a && accepted.1@ == permissions@.units[key]
            } else {
                r == Err::<(AuthContext, Vec<u128>), HandshakeRejection>(HandshakeRejection::Forbidden)
            }
        }),
{
    let a = match auth {
        Some(a) => a,
        None => {
            return Err(HandshakeRejection::Unauthorized);
        },
    };
    match permissions.units_for(a.organization_id, a.user_id) {
        Some(units) => if units.len() > 0 {
            Ok((a, units))
        } else {
            Err(HandshakeRejection::Forbidden)
        },
        None => Err(HandshakeRejection::Forbidden),
    }
}

/// What happens on an open connection.
#[derive(Clone, Copy, Debug, PartialEq, Eq, Structural)]
pub enum SocketEvent {
    /// An alert message for the client, written as text.
    Outbound,
    /// The registry dropped the connection's channel.
    OutboundClosed,
    /// The client closed the socket.
    IncomingClose,
    /// The client pinged.
    IncomingPing,
    /// The client answered a ping.
    IncomingPong,
    /// The client sent text or binary data, which the service ignores.
    IncomingData,
    /// Reading from the socket failed.
    IncomingError,
    /// The socket's stream ended.
    IncomingEnd,
    /// Writing to the socket failed.
    SendFailed,
    /// The heartbeat ticked, `since_pong_ms` after the last pong.
    HeartbeatTick { since_pong_ms: u64 },
}

/// What the connection's task does next.
#[derive(Clone, Copy, Debug, PartialEq, Eq, Structural)]
pub enum SocketAction {
    /// Write the alert message to the socket.
    Forward,
    /// Answer the ping with a pong carrying its payload.
    ReplyPong,
    /// Note the time of the pong.
    RecordPong,
    /// Nothing.
    Ignore,
    /// Send a ping.
    SendPing,
    /// Close the connection and unregister it.
    Close,
}

/// The action an event leads to: a heartbeat closes the connection once no
/// pong came for the timeout, and pings otherwise; the end of either stream,
/// a failed read or write, and a close by the client all close it.
pub open spec fn socket_action(event: SocketEvent, heartbeat_timeout_ms: u64) -> SocketAction {
    match event {
        SocketEvent::Outbound => SocketAction::Forward,
        SocketEvent::IncomingPing => SocketAction::ReplyPong,
        SocketEvent::IncomingPong => SocketAction::RecordPong,
        SocketEvent::IncomingData => SocketAction::Ignore,
        SocketEvent::HeartbeatTick { since_pong_ms } => if since_pong_ms >= heartbeat_timeout_ms {
            SocketAction::Close
        } else {
            SocketAction::SendPing
        },
        _ => SocketAction::Close,
    }
}

/// Decides what an event on an open connection leads to.
pub fn next_socket_action(event: SocketEvent, heartbeat_timeout_ms: u64) -> (r: SocketAction)
    ensures
        r == socket_action(event, heartbeat_timeout_ms),
        event is IncomingEnd || event is IncomingError || event is IncomingClose || event is OutboundClosed
            || event is SendFailed ==> r == SocketAction::Close,
{
    match event {
        SocketEvent::Outbound => SocketAction::Forward,
        SocketEvent::IncomingPing => SocketAction::ReplyPong,
        SocketEvent::IncomingPong => SocketAction::RecordPong,
        SocketEvent::IncomingData => SocketAction::Ignore,
        SocketEvent::HeartbeatTick { since_pong_ms } => if since_pong_ms >= heartbeat_timeout_ms {
            SocketAction::Close
        } else {
            SocketAction::SendPing
        },
        SocketEvent::OutboundClosed => SocketAction::Close,
        SocketEvent::IncomingClose => SocketAction::Close,
        SocketEvent::IncomingError => SocketAction::Close,
        SocketEvent::IncomingEnd => SocketAction::Close,
        SocketEvent::SendFailed => SocketAction::Close,
    }
}

/// What each event on an open connection leads to: the end of the client's
/// stream, a failed read, a close by the client, the loss of the outbound
/// channel and a failed write all close the connection; a heartbeat closes
/// it exactly when no pong came within the timeout, and pings otherwise;
/// alerts are forwarded, pings answered, pongs noted and data ignored. Only
/// these events close a connection.
pub proof fn law_socket_events(event: SocketEvent, heartbeat_timeout_ms: u64)
    ensures
        socket_action(SocketEvent::IncomingEnd, heartbeat_timeout_ms) == SocketAction::Close,
        socket_action(SocketEvent::IncomingError, heartbeat_timeout_ms) == SocketAction::Close,
        socket_action(SocketEvent::IncomingClose, heartbeat_timeout_ms) == SocketAction::Close,
        socket_action(SocketEvent::OutboundClosed, heartbeat_timeout_ms) == SocketAction::Close,
        socket_action(SocketEvent::SendFailed, heartbeat_timeout_ms) == SocketAction::Close,
        socket_action(SocketEvent::Outbound, heartbeat_timeout_ms) == SocketAction::Forward,
        socket_action(SocketEvent::IncomingPing, heartbeat_timeout_ms) == SocketAction::ReplyPong,
        socket_action(SocketEvent::IncomingPong, heartbeat_timeout_ms) == SocketAction::RecordPong,
        socket_action(SocketEvent::IncomingData, heartbeat_timeout_ms) == SocketAction::Ignore,
        event matches SocketEvent::HeartbeatTick { since_pong_ms } ==> socket_action(event, heartbeat_timeout_ms) == if since_pong_ms
            >= heartbeat_timeout_ms {
            SocketAction::Close
        } else {
            SocketAction::SendPing
        },
        socket_action(event, heartbeat_timeout_ms) == SocketAction::Close <==> (event is IncomingEnd || event is IncomingError
            || event is IncomingClose || event is OutboundClosed || event is SendFailed || (event matches SocketEvent::HeartbeatTick {
            since_pong_ms,
        } && since_pong_ms >= heartbeat_timeout_ms)),
{
}

} // verus!
