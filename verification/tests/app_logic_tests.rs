use esp_idf_experiments::ask_for_wifi::{
    form_reply, plan_form_body, BodyPlan, MAX_REQUEST_LEN, STATUS_OK, STATUS_TOO_BIG,
};
use esp_idf_experiments::misc::FontSize;
use esp_idf_experiments::monitor::{wifi_status_text, OverheatNotifier, ALERT_MESSAGE, ALERT_TOPIC};
use esp_idf_experiments::nvs::loaded_or_else;

#[test]
fn body_plan_reads_announced_length() {
    assert!(matches!(plan_form_body(None), BodyPlan::Read(0)));
    assert!(matches!(plan_form_body(Some(57)), BodyPlan::Read(57)));
    assert!(matches!(plan_form_body(Some(2048)), BodyPlan::Read(2048)));
    assert_eq!(MAX_REQUEST_LEN, 2048);
}

#[test]
fn body_plan_rejects_too_big() {
    for len in [2049u64, 1 << 40, u64::MAX] {
        match plan_form_body(Some(len)) {
            BodyPlan::Reject(r) => {
                assert_eq!(r.status, 413);
                assert_eq!(r.status, STATUS_TOO_BIG);
                assert_eq!(r.body, "Request too big");
            }
            BodyPlan::Read(_) => panic!("a body of {} bytes must not be read", len),
        }
    }
}

#[test]
fn form_reply_hands_on_credentials() {
    let o = form_reply(Some(("home".to_string(), "secret".to_string())));
    assert_eq!(o.reply.status, STATUS_OK);
    assert_eq!(o.reply.status, 200);
    assert_eq!(o.reply.body, "Connecting to home...");
    let c = o.creds.expect("credentials");
    assert_eq!(c.ssid, "home");
    assert_eq!(c.password, "secret");
}

#[test]
fn form_reply_to_bad_json() {
    let o = form_reply(None);
    assert_eq!(o.reply.status, 200);
    assert_eq!(o.reply.body, "JSON error");
    assert!(o.creds.is_none());
}

#[test]
fn notifier_sends_once_per_spell() {
    let mut n = OverheatNotifier::new();
    assert!(!n.observe(false, true));
    assert!(n.observe(true, true));
    assert!(!n.observe(true, true));
    assert!(!n.observe(true, true));
    assert!(!n.observe(false, true));
    assert!(n.observe(true, true));
}

#[test]
fn notifier_waits_for_client() {
    let mut n = OverheatNotifier::new();
    assert!(!n.observe(true, false));
    assert!(!n.observe(true, false));
    assert!(n.observe(true, true));
    assert!(!n.observe(true, true));
}

#[test]
fn notifier_rearms_after_cooling() {
    let mut n = OverheatNotifier::new();
    assert!(n.observe(true, true));
    assert!(!n.observe(false, false));
    assert!(n.observe(true, true));
}

#[test]
fn alert_text() {
    assert_eq!(ALERT_TOPIC, "garbaz");
    assert_eq!(ALERT_MESSAGE, "Temperature is over 23°C!");
}

#[test]
fn status_texts() {
    assert_eq!(wifi_status_text(true), "Connected to wifi!");
    assert_eq!(wifi_status_text(false), "Couldn't connect to wifi!");
}

#[test]
fn stored_value_is_kept() {
    let mut called = false;
    let (v, store) = loaded_or_else(Some(5), || {
        called = true;
        7
    });
    assert_eq!(v, 5);
    assert!(!store);
    assert!(!called);
}

#[test]
fn missing_value_is_made_and_stored() {
    let (v, store) = loaded_or_else(None, || 7);
    assert_eq!(v, 7);
    assert!(store);
}

#[test]
fn fonts_by_size() {
    let cases = [
        (FontSize::H4, 4, 6),
        (FontSize::H5, 5, 7),
        (FontSize::H6, 6, 9),
        (FontSize::H7, 7, 13),
        (FontSize::H8, 8, 13),
        (FontSize::H9, 9, 15),
        (FontSize::H10, 10, 20),
    ];
    for (size, w, h) in cases {
        let f = size.to_font();
        assert_eq!(f.character_size.width, w);
        assert_eq!(f.character_size.height, h);
    }
}
