pub mod alert_event;
