//! The settings of the Kafka consumers, and what becomes of each message.

use vstd::prelude::*;
use vstd::string::StringExecFns;

use crate::config::env::{AppConfig, AppConfigView};

verus! {

/// Settings as pairs of texts.
pub open spec fn settings_view(s: Seq<(String, String)>) -> Seq<(Seq<char>, Seq<char>)> {
    s.map_values(|p: (String, String)| (p.0@, p.1@))
}

/// The settings of the alerts consumer: the brokers and group, manual
/// commits, reading from the earliest offset, and the SASL credentials.
pub open spec fn alert_consumer_settings(c: AppConfigView) -> Seq<(Seq<char>, Seq<char>)> {
    seq![
        ("bootstrap.servers"@, c.kafka_brokers),
        ("group.id"@, c.kafka_group_id),
        ("enable.auto.commit"@, "false"@),
        ("auto.offset.reset"@, "earliest"@),
        ("security.protocol"@, c.kafka_security_protocol),
        ("sasl.mechanism"@, c.kafka_sasl_mechanism),
        ("sasl.username"@, c.kafka_username),
        ("sasl.password"@, c.kafka_password),
    ]
}

/// The settings of a control consumer: as for the alerts consumer, with its
/// own group and a client id.
pub open spec fn control_consumer_settings(c: AppConfigView, group_id: Seq<char>, client_id: Seq<char>) -> Seq<
    (Seq<char>, Seq<char>),
> {
    seq![
        ("bootstrap.servers"@, c.kafka_brokers),
        ("group.id"@, group_id),
        ("client.id"@, client_id),
        ("enable.auto.commit"@, "false"@),
        ("auto.offset.reset"@, "earliest"@),
        ("security.protocol"@, c.kafka_security_protocol),
        ("sasl.mechanism"@, c.kafka_sasl_mechanism),
        ("sasl.username"@, c.kafka_username),
        ("sasl.password"@, c.kafka_password),
    ]
}

fn setting(key: &str, value: &str) -> (r: (String, String))
    ensures
        r.0@ == key@,
        r.1@ == value@,
{
    (String::from_str(key), String::from_str(value))
}

/// The settings the alerts consumer is created with.
pub fn alert_consumer_config(config: &AppConfig) -> (r: Vec<(String, String)>)
    ensures
        settings_view(r@) == alert_consumer_settings(config@),
{
    let mut r: Vec<(String, String)> = Vec::new();
    r.push(setting("bootstrap.servers", config.kafka_brokers.as_str()));
    r.push(setting("group.id", config.kafka_group_id.as_str()));
    r.push(setting("enable.auto.commit", "false"));
    r.push(setting("auto.offset.reset", "earliest"));
    r.push(setting("security.protocol", config.kafka_security_protocol.as_str()));
    r.push(setting("sasl.mechanism", config.kafka_sasl_mechanism.as_str()));
    r.push(setting("sasl.username", config.kafka_username.as_str()));
    r.push(setting("sasl.password", config.kafka_password.as_str()));
    proof {
        assert(settings_view(r@) =~= alert_consumer_settings(config@));
    }
    r
}

/// The settings a control consumer is created with.
pub fn control_consumer_config(config: &AppConfig, group_id: &str, client_id: &str) -> (r: Vec<(String, String)>)
    ensures
        settings_view(r@) == control_consumer_settings(config@, group_id@, client_id@),
{
    let mut r: Vec<(String, String)> = Vec::new();
    r.push(setting("bootstrap.servers", config.kafka_brokers.as_str()));
    r.push(setting("group.id", group_id));
    r.push(setting("client.id", client_id));
    r.push(setting("enable.auto.commit", "false"));
    r.push(setting("auto.offset.reset", "earliest"));
    r.push(setting("security.protocol", config.kafka_security_protocol.as_str()));
    r.push(setting("sasl.mechanism", config.kafka_sasl_mechanism.as_str()));
    r.push(setting("sasl.username", config.kafka_username.as_str()));
    r.push(setting("sasl.password", config.kafka_password.as_str()));
    proof {
        assert(settings_view(r@) =~= control_consumer_settings(config@, group_id@, client_id@));
    }
    r
}

/// What becomes of a message on the alerts topic.
#[derive(Clone, Copy, Debug, PartialEq, Eq, Structural)]
pub enum AlertMessageAction {
    /// No payload: skipped, and its offset is not committed.
    SkipEmpty,
    /// The payload is no alert event: reported, and its offset is not
    /// committed.
    ReportParseFailure,
    /// An alert event: dispatched, and its offset committed.
    DispatchAndCommit,
}

/// Decides what becomes of a message on the alerts topic: only a message
/// that parses is committed.
pub fn alert_message_action(has_payload: bool, parsed: bool) -> (r: AlertMessageAction)
    ensures
        !has_payload ==> r == AlertMessageAction::SkipEmpty,
        has_payload && !parsed ==> r == AlertMessageAction::ReportParseFailure,
        has_payload && parsed ==> r == AlertMessageAction::DispatchAndCommit,
{
    if !has_payload {
        AlertMessageAction::SkipEmpty
    } else if parsed {
        AlertMessageAction::DispatchAndCommit
    } else {
        AlertMessageAction::ReportParseFailure
    }
}

} // verus!
