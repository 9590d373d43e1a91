use postman::alert::{block_hash_alert, shadow_stopped, AlertEvent};

#[test]
fn stopped_alert_payload_text() {
    let a = shadow_stopped("http://s", 50);
    assert_eq!(
        a.payload(),
        "[{\"labels\":{\"alertname\":\"ShadowMayStopped\",\"shadow\":\"http://s\",\"gap\":\"50\"},\"generatorUrl\":\"https://github.com/darwinia-network/postman_rs\"}]"
    );
}

#[test]
fn mismatch_alert_document_fields() {
    let a = block_hash_alert("http://s", 12);
    let v = a.document().expect("valid JSON");
    assert!(v.is_array());
    assert_eq!(v[0]["labels"]["alertname"], "ShadowBlockHashNotSameAsEtherscan");
    assert_eq!(v[0]["labels"]["shadow"], "http://s");
    assert_eq!(v[0]["labels"]["block"], "12");
    assert_eq!(v[0]["generatorUrl"], "https://github.com/darwinia-network/postman_rs");
}

#[test]
fn alert_without_labels() {
    let a = AlertEvent {
        alert_name: "X".to_string(),
        labels: vec![],
        generator_url: "g".to_string(),
    };
    assert_eq!(a.payload(), "[{\"labels\":{\"alertname\":\"X\"},\"generatorUrl\":\"g\"}]");
    assert!(a.document().is_ok());
}

#[test]
fn quote_and_backslash_in_label_arrive_as_they_are() {
    let url = "http://a\"b\\c";
    let a = shadow_stopped(url, 3);
    assert_eq!(
        a.payload(),
        "[{\"labels\":{\"alertname\":\"ShadowMayStopped\",\"shadow\":\"http://a\\\"b\\\\c\",\"gap\":\"3\"},\"generatorUrl\":\"https://github.com/darwinia-network/postman_rs\"}]"
    );
    let v = a.document().expect("valid JSON");
    assert_eq!(v[0]["labels"]["shadow"], url);
    let b = block_hash_alert(url, 9);
    let w = b.document().expect("valid JSON");
    assert_eq!(w[0]["labels"]["shadow"], url);
    assert_eq!(w[0]["labels"]["block"], "9");
}

#[test]
fn control_characters_are_escaped() {
    let url = "http://s\n\t\u{1}";
    let a = shadow_stopped(url, 1);
    assert!(a.payload().contains("http://s\\u000a\\u0009\\u0001"));
    let v = a.document().expect("valid JSON");
    assert_eq!(v[0]["labels"]["shadow"], url);
}

#[test]
fn non_ascii_label_is_kept() {
    let url = "http://\u{00e9}\u{4e2d}";
    let v = shadow_stopped(url, 2).document().expect("valid JSON");
    assert_eq!(v[0]["labels"]["shadow"], url);
}
