use vstd::prelude::*;
use vstd::string::*;

verus! {

/// The Wi-Fi channel the set-up access point uses, between 1 and 11.
pub const CHANNEL: u8 = 11;

/// The most bytes an SSID may have.
pub const SSID_MAX_LEN: usize = 32;

/// The most bytes a Wi-Fi password may have.
pub const PASSWORD_MAX_LEN: usize = 64;

/// How a station authenticates to an access point.
#[derive(PartialEq, Eq, Structural, Clone, Copy, Debug)]
pub enum AuthMethod {
    /// No authentication: an open network.
    Open,
    WEP,
    WPA,
    WPA2Personal,
    WPAWPA2Personal,
    WPA2Enterprise,
    WPA3Personal,
    WPA2WPA3Personal,
    WAPIPersonal,
}

/// The settings of the device when it acts as an access point.
pub struct AccessPointConfig {
    pub ssid: String,
    pub ssid_hidden: bool,
    pub auth_method: AuthMethod,
    pub password: String,
    pub channel: u8,
}

/// The settings of the device when it joins a network as a client.
pub struct ClientConfig {
    pub ssid: String,
    pub bssid: Option<[u8; 6]>,
    pub auth_method: AuthMethod,
    pub password: String,
    pub channel: Option<u8>,
}

/// The Wi-Fi mode the device is set to.
pub enum WifiConfiguration {
    Client(ClientConfig),
    AccessPoint(AccessPointConfig),
}

/// The mathematical content of a [`WifiConfiguration`]: the strings by
/// their characters, the rest as it is.
#[allow(inconsistent_fields)]
pub enum WifiConfigurationView {
    Client {
        ssid: Seq<char>,
        bssid: Option<[u8; 6]>,
        auth_method: AuthMethod,
        password: Seq<char>,
        channel: Option<u8>,
    },
    AccessPoint {
        ssid: Seq<char>,
        ssid_hidden: bool,
        auth_method: AuthMethod,
        password: Seq<char>,
        channel: u8,
    },
}

impl View for WifiConfiguration {
    type V = WifiConfigurationView;

    open spec fn view(&self) -> WifiConfigurationView {
        match self {
            WifiConfiguration::Client(c) => WifiConfigurationView::Client {
                ssid: c.ssid@,
                bssid: c.bssid,
                auth_method: c.auth_method,
                password: c.password@,
                channel: c.channel,
            },
            WifiConfiguration::AccessPoint(a) => WifiConfigurationView::AccessPoint {
                ssid: a.ssid@,
                ssid_hidden: a.ssid_hidden,
                auth_method: a.auth_method,
                password: a.password@,
                channel: a.channel,
            },
        }
    }
}

/// Whether `ssid` and `password` fit the room that the Wi-Fi driver keeps
/// for them, counted in UTF-8 bytes.
pub open spec fn credentials_fit(ssid: &str, password: &str) -> bool {
    &&& ssid.spec_bytes().len() <= SSID_MAX_LEN
    &&& password.spec_bytes().len() <= PASSWORD_MAX_LEN
}

/// The configuration of the set-up access point: visible, WPA2 personal,
/// on [`CHANNEL`].
pub open spec fn access_point_configuration(ssid: Seq<char>, password: Seq<char>) -> WifiConfigurationView {
    WifiConfigurationView::AccessPoint {
        ssid: ssid,
        ssid_hidden: false,
        auth_method: AuthMethod::WPA2Personal,
        password: password,
        channel: CHANNEL,
    }
}

/// The configuration for joining a WPA2 personal network, on whatever
/// access point and channel carry it.
pub open spec fn client_configuration(ssid: Seq<char>, password: Seq<char>) -> WifiConfigurationView {
    WifiConfigurationView::Client {
        ssid: ssid,
        bssid: None,
        auth_method: AuthMethod::WPA2Personal,
        password: password,
        channel: None,
    }
}

/// Law: whatever the SSID and password, the set-up access point is
/// visible, asks for WPA2 personal authentication, runs on channel 11 and
/// carries the given SSID and password unchanged; two access points share a
/// configuration only when they share SSID and password.
pub proof fn lemma_access_point_configuration(ssid: Seq<char>, password: Seq<char>, other_ssid: Seq<char>, other_password: Seq<char>)
    ensures
        access_point_configuration(ssid, password) matches WifiConfigurationView::AccessPoint {
            ssid: s,
            ssid_hidden: h,
            auth_method: a,
            password: p,
            channel: c,
        } && s == ssid && !h && a == AuthMethod::WPA2Personal && p == password && c == 11,
        access_point_configuration(ssid, password) == access_point_configuration(other_ssid, other_password)
            <==> (ssid == other_ssid && password == other_password),
{
}

/// Law: whatever the SSID and password, joining a network asks for WPA2
/// personal authentication, pins neither access point nor channel, and
/// carries the given SSID and password unchanged; two client configurations
/// agree only when they share SSID and password.
pub proof fn lemma_client_configuration(ssid: Seq<char>, password: Seq<char>, other_ssid: Seq<char>, other_password: Seq<char>)
    ensures
        client_configuration(ssid, password) matches WifiConfigurationView::Client {
            ssid: s,
            bssid: b,
            auth_method: a,
            password: p,
            channel: c,
        } && s == ssid && b is None && a == AuthMethod::WPA2Personal && p == password && c is None,
        client_configuration(ssid, password) == client_configuration(other_ssid, other_password)
            <==> (ssid == other_ssid && password == other_password),
{
}

/// Law: joining a network makes the same calls as setting up the access
/// point, with a `Connect` between starting the radio and waiting for the
/// network interface; only joining connects.
pub proof fn lemma_steps()
    ensures
        client_steps() == access_point_steps().insert(2, WifiStep::Connect),
        client_steps().contains(WifiStep::Connect),
        !access_point_steps().contains(WifiStep::Connect),
        access_point_steps()[0] == WifiStep::SetConfiguration,
        client_steps()[0] == WifiStep::SetConfiguration,
        access_point_steps().last() == WifiStep::WaitNetifUp,
        client_steps().last() == WifiStep::WaitNetifUp,
{
    assert(client_steps() =~= access_point_steps().insert(2, WifiStep::Connect));
    assert(client_steps()[2] == WifiStep::Connect);
    let a = access_point_steps();
    assert(forall|i: int| 0 <= i < a.len() ==> a[i] != WifiStep::Connect);
}

/// One call into the Wi-Fi driver.
#[derive(PartialEq, Eq, Structural, Clone, Copy, Debug)]
pub enum WifiStep {
    /// Hand the driver the configuration.
    SetConfiguration,
    /// Start the radio.
    Start,
    /// Join the configured network.
    Connect,
    /// Wait until the network interface is up.
    WaitNetifUp,
}

/// How the last driver call ended.
#[derive(PartialEq, Eq, Structural, Clone, Copy, Debug)]
pub enum StepResult {
    Succeeded,
    Failed,
}

/// What the bring-up asks for next.
#[derive(PartialEq, Eq, Structural, Clone, Copy, Debug)]
pub enum WifiAction {
    /// Make this driver call and report how it ended.
    Perform(WifiStep),
    /// Every call succeeded: the bring-up is done.
    Done,
    /// A call failed: the bring-up ends with that call's error.
    Stop,
}

/// The state of a bring-up: the calls to make, how many have succeeded,
/// and whether one failed.
pub struct BringUpState {
    pub steps: Seq<WifiStep>,
    pub completed: nat,
    pub failed: bool,
}

/// What a bring-up in state `s` asks for.
pub open spec fn next_action(s: BringUpState) -> WifiAction {
    if s.failed {
        WifiAction::Stop
    } else if s.completed >= s.steps.len() {
        WifiAction::Done
    } else {
        WifiAction::Perform(s.steps[s.completed as int])
    }
}

/// The state after the requested call ended with `result`.
pub open spec fn after_step(s: BringUpState, result: StepResult) -> BringUpState {
    match result {
        StepResult::Succeeded => BringUpState { completed: s.completed + 1, ..s },
        StepResult::Failed => BringUpState { failed: true, ..s },
    }
}

/// The state after the results in `results` are reported one by one, for
/// as long as the bring-up keeps asking for calls.
pub open spec fn after_steps(s: BringUpState, results: Seq<StepResult>) -> BringUpState
    decreases results.len(),
{
    if results.len() == 0 {
        s
    } else if next_action(s) is Perform {
        after_steps(after_step(s, results[0]), results.drop_first())
    } else {
        s
    }
}

/// Law: a bring-up that has not failed, told how its remaining calls end,
/// in order, is done exactly when every remaining call succeeded, and stops
/// exactly when one of them failed; it stops at the first failure, having
/// asked for no call after it, and it never changes its list of calls.
pub proof fn lemma_bring_up_outcome(s: BringUpState, results: Seq<StepResult>)
    requires
        !s.failed,
        s.completed <= s.steps.len(),
    ensures
        ({
            let t = after_steps(s, results);
            let remaining = s.steps.len() - s.completed;
            &&& t.steps == s.steps
            &&& s.completed <= t.completed <= s.steps.len()
            &&& t.completed - s.completed <= results.len()
            &&& t.failed ==> t.completed - s.completed < results.len()
            &&& (next_action(t) == WifiAction::Done) <==> (results.len() >= remaining && forall|i: int|
                0 <= i < remaining ==> results[i] == StepResult::Succeeded)
            &&& (next_action(t) == WifiAction::Stop) <==> (exists|i: int|
                0 <= i < results.len() && i < remaining && results[i] == StepResult::Failed)
            &&& forall|i: int|
                0 <= i < t.completed - s.completed ==> results[i] == StepResult::Succeeded
            &&& t.failed ==> results[t.completed - s.completed] == StepResult::Failed
        }),
    decreases results.len(),
{
    let remaining = s.steps.len() - s.completed;
    if results.len() == 0 {
    } else if s.completed >= s.steps.len() {
    } else {
        let rest = results.drop_first();
        if results[0] == StepResult::Succeeded {
            let s1 = after_step(s, results[0]);
            lemma_bring_up_outcome(s1, rest);
            let t = after_steps(s1, rest);
            assert(after_steps(s, results) == t);
            assert forall|i: int| 0 <= i < t.completed - s.completed implies results[i]
                == StepResult::Succeeded by {
                if i > 0 {
                    assert(results[i] == rest[i - 1]);
                }
            }
            if t.failed {
                assert(results[t.completed - s.completed] == rest[t.completed - s1.completed]);
            }
            if next_action(t) == WifiAction::Done {
                assert(rest.len() >= remaining - 1);
                assert forall|i: int| 0 <= i < remaining implies results[i] == StepResult::Succeeded by {
                    if i > 0 {
                        assert(results[i] == rest[i - 1]);
                    }
                }
            }
            if results.len() >= remaining && forall|i: int|
                0 <= i < remaining ==> results[i] == StepResult::Succeeded {
                assert forall|i: int| 0 <= i < remaining - 1 implies rest[i] == StepResult::Succeeded by {
                    assert(rest[i] == results[i + 1]);
                }
            }
            if next_action(t) == WifiAction::Stop {
                let j = choose|j: int| 0 <= j < rest.len() && j < remaining - 1 && rest[j] == StepResult::Failed;
                assert(results[j + 1] == rest[j]);
            }
            if exists|i: int| 0 <= i < results.len() && i < remaining && results[i] == StepResult::Failed {
                let j = choose|j: int| 0 <= j < results.len() && j < remaining && results[j] == StepResult::Failed;
                assert(j > 0);
                assert(rest[j - 1] == results[j]);
            }
        } else {
            let s1 = after_step(s, results[0]);
            assert(after_steps(s1, rest) == s1);
            assert(after_steps(s, results) == s1);
        }
    }
}

/// The calls that set the device up as an access point, in order.
pub open spec fn access_point_steps() -> Seq<WifiStep> {
    seq![WifiStep::SetConfiguration, WifiStep::Start, WifiStep::WaitNetifUp]
}

/// The calls that join the device to a network, in order.
pub open spec fn client_steps() -> Seq<WifiStep> {
    seq![WifiStep::SetConfiguration, WifiStep::Start, WifiStep::Connect, WifiStep::WaitNetifUp]
}

/// Bringing Wi-Fi up: the configuration to hand the driver and the driver
/// calls still to make. The caller makes the calls one by one as
/// [`WifiBringUp::next_action`] asks and reports each with
/// [`WifiBringUp::record`]; the first failure ends the bring-up.
pub struct WifiBringUp {
    configuration: WifiConfiguration,
    steps: Vec<WifiStep>,
    completed: usize,
    failed: bool,
}

impl WifiBringUp {
    #[verifier::type_invariant]
    spec fn well_formed(self) -> bool {
        self.completed <= self.steps@.len()
    }

    /// The configuration to hand the driver.
    pub closed spec fn spec_configuration(self) -> WifiConfigurationView {
        self.configuration@
    }

    /// Where the bring-up stands.
    pub closed spec fn state(self) -> BringUpState {
        BringUpState { steps: self.steps@, completed: self.completed as nat, failed: self.failed }
    }

    /// The configuration to hand the driver at [`WifiStep::SetConfiguration`].
    pub fn configuration(&self) -> (c: &WifiConfiguration)
        ensures
            c@ == self.spec_configuration(),
    {
        &self.configuration
    }

    /// What to do next.
    pub fn next_action(&self) -> (a: WifiAction)
        ensures
            a == next_action(self.state()),
    {
        proof {
            use_type_invariant(self);
        }
        if self.failed {
            WifiAction::Stop
        } else if self.completed >= self.steps.len() {
            WifiAction::Done
        } else {
            WifiAction::Perform(self.steps[self.completed])
        }
    }

    /// Reports how the requested driver call ended.
    pub fn record(&mut self, result: StepResult)
        requires
            next_action(old(self).state()) is Perform,
        ensures
            final(self).state() == after_step(old(self).state(), result),
            final(self).spec_configuration() == old(self).spec_configuration(),
    {
        proof {
            use_type_invariant(&*self);
        }
        match result {
            StepResult::Succeeded => {
                assert(self.completed < self.steps.len());
                self.completed = self.completed + 1;
            },
            StepResult::Failed => {
                self.failed = true;
            },
        }
    }
}

fn copy_str(s: &str) -> (r: String)
    ensures
        r@ == s@,
{
    String::from_str(s)
}

/// Plans setting the device up as an access point named `ssid` with
/// `password`: configure, start, wait for the network interface.
pub fn wifi_access_point(ssid: &str, password: &str) -> (b: WifiBringUp)
    requires
        credentials_fit(ssid, password),
    ensures
        b.spec_configuration() == access_point_configuration(ssid@, password@),
        b.state() == (BringUpState { steps: access_point_steps(), completed: 0, failed: false }),
        b.spec_configuration() == (WifiConfigurationView::AccessPoint {
            ssid: ssid@,
            ssid_hidden: false,
            auth_method: AuthMethod::WPA2Personal,
            password: password@,
            channel: 11,
        }),
        b.state().steps == seq![WifiStep::SetConfiguration, WifiStep::Start, WifiStep::WaitNetifUp],
{
    let configuration = WifiConfiguration::AccessPoint(
        AccessPointConfig {
            ssid: copy_str(ssid),
            ssid_hidden: false,
            auth_method: AuthMethod::WPA2Personal,
            password: copy_str(password),
            channel: CHANNEL,
        },
    );
    let steps = vec![WifiStep::SetConfiguration, WifiStep::Start, WifiStep::WaitNetifUp];
    let b = WifiBringUp { configuration, steps, completed: 0, failed: false };
    assert(b.state().steps =~= access_point_steps());
    b
}

/// Plans joining the network `ssid` with `password`: configure, start,
/// connect, wait for the network interface.
pub fn wifi_connect(ssid: &str, password: &str) -> (b: WifiBringUp)
    requires
        credentials_fit(ssid, password),
    ensures
        b.spec_configuration() == client_configuration(ssid@, password@),
        b.state() == (BringUpState { steps: client_steps(), completed: 0, failed: false }),
        b.spec_configuration() == (WifiConfigurationView::Client {
            ssid: ssid@,
            bssid: None,
            auth_method: AuthMethod::WPA2Personal,
            password: password@,
            channel: None,
        }),
        b.state().steps == seq![
            WifiStep::SetConfiguration,
            WifiStep::Start,
            WifiStep::Connect,
            WifiStep::WaitNetifUp,
        ],
{
    let configuration = WifiConfiguration::Client(
        ClientConfig {
            ssid: copy_str(ssid),
            bssid: None,
            auth_method: AuthMethod::WPA2Personal,
            password: copy_str(password),
            channel: None,
        },
    );
    let steps = vec![
        WifiStep::SetConfiguration,
        WifiStep::Start,
        WifiStep::Connect,
        WifiStep::WaitNetifUp,
    ];
    let b = WifiBringUp { configuration, steps, completed: 0, failed: false };
    assert(b.state().steps =~= client_steps());
    b
}

} // verus!
