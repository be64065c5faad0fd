use alert_distributor::sns::models::SnsMessage;

#[test]
fn sns_payload_format_is_correct() {
    let message = SnsMessage::new("Ingreso a geocerca", "Camioneta Juan");
    let payload = message.to_json_payload();

    let parsed: serde_json::Value = serde_json::from_str(&payload).unwrap();

    assert_eq!(parsed["default"], "alert");
    assert!(parsed.get("APNS").is_some());
    assert!(parsed.get("APNS_SANDBOX").is_some());
    assert!(parsed.get("GCM").is_some());

    // Verify GCM content
    let gcm_str = parsed["GCM"].as_str().unwrap();
    let gcm: serde_json::Value = serde_json::from_str(gcm_str).unwrap();
    assert_eq!(gcm["priority"], "high");
    assert_eq!(gcm["content_available"], true);
    assert_eq!(gcm["notification"]["title"], "Ingreso a geocerca");
    assert_eq!(gcm["notification"]["body"], "Camioneta Juan");
    assert_eq!(gcm["notification"]["sound"], "alert_default.caf");

    // Verify APNS content
    let apns_str = parsed["APNS"].as_str().unwrap();
    let apns: serde_json::Value = serde_json::from_str(apns_str).unwrap();
    assert_eq!(apns["aps"]["alert"]["title"], "Ingreso a geocerca");
    assert_eq!(apns["aps"]["sound"], "alert_default.caf");
    assert_eq!(apns["aps"]["content-available"], 1);
}

#[test]
fn sns_payload_handles_special_characters() {
    let message = SnsMessage::new("Alerta \"Crítica\"", "Línea 1\nLínea 2");
    let payload = message.to_json_payload();

    let parsed: serde_json::Value = serde_json::from_str(&payload).unwrap();
    let gcm_str = parsed["GCM"].as_str().unwrap();
    let gcm: serde_json::Value = serde_json::from_str(gcm_str).unwrap();

    assert_eq!(gcm["notification"]["title"], "Alerta \"Crítica\"");
    assert_eq!(gcm["notification"]["body"], "Línea 1\nLínea 2");
}

fn object(pairs: Vec<(&str, serde_json::Value)>) -> serde_json::Value {
    let mut map = serde_json::Map::new();
    for (key, value) in pairs {
        map.insert(key.to_string(), value);
    }
    serde_json::Value::Object(map)
}

fn text(s: &str) -> serde_json::Value {
    serde_json::Value::String(s.to_string())
}

/// The payload as serde_json writes the same structure.
fn expected_payload(title: &str, body: &str) -> String {
    let apns = object(vec![(
        "aps",
        object(vec![
            ("alert", object(vec![("title", text(title)), ("body", text(body))])),
            ("sound", text("alert_default.caf")),
            ("content-available", serde_json::Value::from(1)),
        ]),
    )]);
    let gcm = object(vec![
        ("priority", text("high")),
        ("content_available", serde_json::Value::Bool(true)),
        (
            "notification",
            object(vec![
                ("title", text(title)),
                ("body", text(body)),
                ("sound", text("alert_default.caf")),
                ("click_action", text("TOP_STORY_NOTIFICATION")),
            ]),
        ),
        ("data", object(vec![("message", text(body)), ("title", text(title))])),
    ]);
    let sns = object(vec![
        ("default", text("alert")),
        ("APNS", serde_json::Value::String(apns.to_string())),
        ("APNS_SANDBOX", serde_json::Value::String(apns.to_string())),
        ("GCM", serde_json::Value::String(gcm.to_string())),
    ]);
    sns.to_string()
}

#[test]
fn sns_payload_equals_serde_json_output() {
    for (title, body) in [
        ("Ingreso a geocerca", "Camioneta Juan"),
        ("T\u{1}\t\u{1f}", "B\\/\r\u{8}\u{c}"),
        ("", ""),
        ("ñandú \u{7f} é", "\"quoted\""),
    ] {
        let payload = SnsMessage::new(title, body).to_json_payload();
        assert_eq!(payload, expected_payload(title, body));
    }
}

#[test]
fn sns_payload_exact_text() {
    let payload = SnsMessage::new("A", "B").to_json_payload();
    let apns = r#"{\"aps\":{\"alert\":{\"body\":\"B\",\"title\":\"A\"},\"content-available\":1,\"sound\":\"alert_default.caf\"}}"#;
    let gcm = r#"{\"content_available\":true,\"data\":{\"message\":\"B\",\"title\":\"A\"},\"notification\":{\"body\":\"B\",\"click_action\":\"TOP_STORY_NOTIFICATION\",\"sound\":\"alert_default.caf\",\"title\":\"A\"},\"priority\":\"high\"}"#;
    let expected = format!(
        "{{\"APNS\":\"{}\",\"APNS_SANDBOX\":\"{}\",\"GCM\":\"{}\",\"default\":\"alert\"}}",
        apns, apns, gcm
    );
    assert_eq!(payload, expected);
}

#[test]
fn sns_payload_fields_read_back_with_control_characters() {
    let title = "Tab\there \"quoted\" \\ back";
    let body = "bell\u{7} and\u{1f} unit\nline";
    let payload = SnsMessage::new(title, body).to_json_payload();
    let outer: serde_json::Value = serde_json::from_str(&payload).unwrap();
    assert_eq!(outer["default"], "alert");
    assert_eq!(outer["APNS"], outer["APNS_SANDBOX"]);
    let apns: serde_json::Value = serde_json::from_str(outer["APNS"].as_str().unwrap()).unwrap();
    assert_eq!(apns["aps"]["alert"]["title"], title);
    assert_eq!(apns["aps"]["alert"]["body"], body);
    let gcm: serde_json::Value = serde_json::from_str(outer["GCM"].as_str().unwrap()).unwrap();
    assert_eq!(gcm["notification"]["title"], title);
    assert_eq!(gcm["notification"]["body"], body);
    assert_eq!(gcm["data"]["title"], title);
    assert_eq!(gcm["data"]["message"], body);
}
