use esp_idf_experiments::wifi::{
    wifi_access_point, wifi_connect, AuthMethod, StepResult, WifiAction, WifiConfiguration,
    WifiStep, CHANNEL, PASSWORD_MAX_LEN, SSID_MAX_LEN,
};

fn run(mut b: esp_idf_experiments::wifi::WifiBringUp, results: &[StepResult]) -> (Vec<WifiStep>, WifiAction) {
    let mut performed = Vec::new();
    let mut results = results.iter();
    loop {
        match b.next_action() {
            WifiAction::Perform(step) => {
                performed.push(step);
                match results.next() {
                    Some(r) => b.record(*r),
                    None => return (performed, WifiAction::Perform(step)),
                }
            }
            end => return (performed, end),
        }
    }
}

#[test]
fn access_point_configuration() {
    let b = wifi_access_point("esp32c3", "12345678");
    match b.configuration() {
        WifiConfiguration::AccessPoint(a) => {
            assert_eq!(a.ssid, "esp32c3");
            assert_eq!(a.password, "12345678");
            assert!(!a.ssid_hidden);
            assert_eq!(a.auth_method, AuthMethod::WPA2Personal);
            assert_eq!(a.channel, 11);
            assert_eq!(CHANNEL, 11);
        }
        _ => panic!("expected an access point configuration"),
    }
}

#[test]
fn access_point_steps_in_order() {
    let b = wifi_access_point("ap", "password");
    let (performed, end) = run(b, &[StepResult::Succeeded; 3]);
    assert_eq!(
        performed,
        vec![WifiStep::SetConfiguration, WifiStep::Start, WifiStep::WaitNetifUp]
    );
    assert_eq!(end, WifiAction::Done);
}

#[test]
fn client_configuration() {
    let b = wifi_connect("home", "secret");
    match b.configuration() {
        WifiConfiguration::Client(c) => {
            assert_eq!(c.ssid, "home");
            assert_eq!(c.password, "secret");
            assert_eq!(c.bssid, None);
            assert_eq!(c.auth_method, AuthMethod::WPA2Personal);
            assert_eq!(c.channel, None);
        }
        _ => panic!("expected a client configuration"),
    }
}

#[test]
fn client_steps_in_order() {
    let (performed, end) = run(wifi_connect("home", "secret"), &[StepResult::Succeeded; 4]);
    assert_eq!(
        performed,
        vec![
            WifiStep::SetConfiguration,
            WifiStep::Start,
            WifiStep::Connect,
            WifiStep::WaitNetifUp
        ]
    );
    assert_eq!(end, WifiAction::Done);
}

#[test]
fn failure_stops_bring_up() {
    let results = [StepResult::Succeeded, StepResult::Failed, StepResult::Succeeded];
    let (performed, end) = run(wifi_connect("home", "secret"), &results);
    assert_eq!(performed, vec![WifiStep::SetConfiguration, WifiStep::Start]);
    assert_eq!(end, WifiAction::Stop);
}

#[test]
fn first_step_failure() {
    let (performed, end) = run(wifi_access_point("ap", "pw"), &[StepResult::Failed]);
    assert_eq!(performed, vec![WifiStep::SetConfiguration]);
    assert_eq!(end, WifiAction::Stop);
}

#[test]
fn longest_credentials_accepted() {
    let ssid = "s".repeat(SSID_MAX_LEN);
    let password = "p".repeat(PASSWORD_MAX_LEN);
    let b = wifi_connect(&ssid, &password);
    match b.configuration() {
        WifiConfiguration::Client(c) => {
            assert_eq!(c.ssid.len(), 32);
            assert_eq!(c.password.len(), 64);
        }
        _ => panic!("expected a client configuration"),
    }
}
