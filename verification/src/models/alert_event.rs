//! The alert event that arrives on the alerts topic.

use vstd::prelude::*;

use crate::text::{blank_text, is_blank};

verus! {

/// A UTC instant: seconds since the Unix epoch and the nanoseconds within
/// that second.
#[derive(Clone, Copy, Debug, PartialEq, Eq, Structural)]
pub struct Timestamp {
    pub seconds: i64,
    pub nanos: u32,
}

/// An alert raised for a unit. Identifiers are the UUIDs' 128-bit values;
/// `unit_id` stays the text that arrived, since the dispatchers check it.
#[derive(Clone, Debug)]
pub struct AlertEvent {
    pub id: u128,
    pub organization_id: u128,
    pub unit_id: String,
    pub unit_name: Option<String>,
    pub rule_id: u128,
    pub source_type: String,
    pub source_id: u128,
    pub alert_type: String,
    pub alert_name: Option<String>,
    pub payload: serde_json::Value,
    pub occurred_at: Timestamp,
}


/// The text of an optional string.
pub open spec fn text_of(o: Option<String>) -> Option<Seq<char>> {
    match o {
        Some(s) => Some(s@),
        None => None,
    }
}

/// The title shown for an alert: its name, unless the name is missing or
/// blank; then its type.
pub open spec fn alert_title(alert_name: Option<Seq<char>>, alert_type: Seq<char>) -> Seq<char> {
    match alert_name {
        Some(name) => if is_blank(name) {
            alert_type
        } else {
            name
        },
        None => alert_type,
    }
}

/// The body shown for an alert: the unit's name, unless it is missing or
/// blank; then the empty text.
pub open spec fn alert_body(unit_name: Option<Seq<char>>) -> Seq<char> {
    match unit_name {
        Some(name) => if is_blank(name) {
            Seq::empty()
        } else {
            name
        },
        None => Seq::empty(),
    }
}

impl Timestamp {
    pub fn copy(&self) -> (r: Timestamp)
        ensures
            r == *self,
    {
        Timestamp { seconds: self.seconds, nanos: self.nanos }
    }
}

/// A copy of an optional text, equal to it.
pub fn copy_optional_text(o: &Option<String>) -> (r: Option<String>)
    ensures
        r == *o,
{
    match o {
        Some(s) => Some(s.clone()),
        None => None,
    }
}

impl AlertEvent {
    /// A copy of the event, equal to it.
    pub fn duplicate(&self) -> (r: AlertEvent)
        ensures
            r == *self,
    {
        AlertEvent {
            id: self.id,
            organization_id: self.organization_id,
            unit_id: self.unit_id.clone(),
            unit_name: copy_optional_text(&self.unit_name),
            rule_id: self.rule_id,
            source_type: self.source_type.clone(),
            source_id: self.source_id,
            alert_type: self.alert_type.clone(),
            alert_name: copy_optional_text(&self.alert_name),
            payload: self.payload.clone(),
            occurred_at: self.occurred_at.copy(),
        }
    }

    /// The title for the alert's notifications.
    pub fn title(&self) -> (r: String)
        ensures
            r@ == alert_title(text_of(self.alert_name), self.alert_type@),
    {
        match &self.alert_name {
            Some(name) => if blank_text(name.as_str()) {
                self.alert_type.clone()
            } else {
                name.clone()
            },
            None => self.alert_type.clone(),
        }
    }

    /// The body for the alert's notifications.
    pub fn body(&self) -> (r: String)
        ensures
            r@ == alert_body(text_of(self.unit_name)),
    {
        match &self.unit_name {
            Some(name) => if blank_text(name.as_str()) {
                String::new()
            } else {
                name.clone()
            },
            None => String::new(),
        }
    }
}

} // verus!
