use vstd::prelude::*;

verus! {

/// The ntfy.sh topic that the over-temperature alert is published to.
pub const ALERT_TOPIC: &'static str = "garbaz";

/// The text of the over-temperature alert.
pub const ALERT_MESSAGE: &'static str = "Temperature is over 23°C!";

/// Whether, with `notified` set before, an observation sends an alert.
pub open spec fn sends_alert(notified: bool, over_threshold: bool, can_send: bool) -> bool {
    over_threshold && !notified && can_send
}

/// The `notified` flag after an observation: cleared below the threshold,
/// set when an alert went out, kept otherwise.
pub open spec fn notified_after(notified: bool, over_threshold: bool, can_send: bool) -> bool {
    if !over_threshold {
        false
    } else if sends_alert(notified, over_threshold, can_send) {
        true
    } else {
        notified
    }
}

/// The flag after a run of observations, each a pair (over the threshold,
/// able to send).
pub open spec fn notified_after_all(notified: bool, observations: Seq<(bool, bool)>) -> bool
    decreases observations.len(),
{
    if observations.len() == 0 {
        notified
    } else {
        notified_after_all(
            notified_after(notified, observations[0].0, observations[0].1),
            observations.drop_first(),
        )
    }
}

/// How many alerts a run of observations sends.
pub open spec fn alerts_sent(notified: bool, observations: Seq<(bool, bool)>) -> nat
    decreases observations.len(),
{
    if observations.len() == 0 {
        0
    } else {
        (if sends_alert(notified, observations[0].0, observations[0].1) {
            1nat
        } else {
            0nat
        }) + alerts_sent(
            notified_after(notified, observations[0].0, observations[0].1),
            observations.drop_first(),
        )
    }
}

/// Decides when the over-temperature alert goes out: once when the
/// temperature rises over the threshold, and again only after it has been
/// back at or under it.
pub struct OverheatNotifier {
    notified: bool,
}

impl OverheatNotifier {
    /// Whether the alert for the current spell over the threshold has gone out.
    pub closed spec fn notified(self) -> bool {
        self.notified
    }

    /// A notifier that has sent nothing yet.
    pub fn new() -> (n: OverheatNotifier)
        ensures
            !n.notified(),
    {
        OverheatNotifier { notified: false }
    }

    /// Takes in one temperature reading, as whether it is over the
    /// threshold and whether an HTTP client is there to send with; returns
    /// whether to send the alert now.
    pub fn observe(&mut self, over_threshold: bool, can_send: bool) -> (send: bool)
        ensures
            send == sends_alert(old(self).notified(), over_threshold, can_send),
            final(self).notified() == notified_after(old(self).notified(), over_threshold, can_send),
    {
        if over_threshold {
            if !self.notified && can_send {
                self.notified = true;
                true
            } else {
                false
            }
        } else {
            self.notified = false;
            false
        }
    }
}

/// Law: while the temperature stays over the threshold, at most one alert
/// goes out, and none if the alert for this spell was already sent.
pub proof fn lemma_one_alert_per_spell(notified: bool, observations: Seq<(bool, bool)>)
    requires
        forall|i: int| 0 <= i < observations.len() ==> (#[trigger] observations[i]).0,
    ensures
        alerts_sent(notified, observations) <= 1,
        notified ==> alerts_sent(notified, observations) == 0,
        alerts_sent(notified, observations) == 1 ==> notified_after_all(notified, observations),
    decreases observations.len(),
{
    if observations.len() > 0 {
        let rest = observations.drop_first();
        assert forall|i: int| 0 <= i < rest.len() implies (#[trigger] rest[i]).0 by {
            assert(rest[i] == observations[i + 1]);
        }
        assert(observations[0].0);
        let n1 = notified_after(notified, observations[0].0, observations[0].1);
        lemma_one_alert_per_spell(n1, rest);
        if n1 {
            lemma_notified_stays_set(n1, rest);
        }
    }
}

/// While the temperature stays over the threshold, a set flag stays set.
proof fn lemma_notified_stays_set(notified: bool, observations: Seq<(bool, bool)>)
    requires
        forall|i: int| 0 <= i < observations.len() ==> (#[trigger] observations[i]).0,
        notified,
    ensures
        notified_after_all(notified, observations),
    decreases observations.len(),
{
    if observations.len() > 0 {
        let rest = observations.drop_first();
        assert forall|i: int| 0 <= i < rest.len() implies (#[trigger] rest[i]).0 by {
            assert(rest[i] == observations[i + 1]);
        }
        assert(observations[0].0);
        lemma_notified_stays_set(notified, rest);
    }
}

/// Law: a reading at or under the threshold re-arms the alert: the next
/// reading over it sends the alert whenever a client is there.
pub proof fn lemma_cool_down_rearms(notified: bool, can_send_first: bool, can_send_next: bool)
    ensures
        sends_alert(notified_after(notified, false, can_send_first), true, can_send_next)
            == can_send_next,
{
}

/// Law: no alert goes out for a reading at or under the threshold, nor
/// without a client to send with.
pub proof fn lemma_alert_needs_heat_and_client(notified: bool, over_threshold: bool, can_send: bool)
    ensures
        sends_alert(notified, over_threshold, can_send) ==> over_threshold && can_send,
{
}

/// The line shown on the display once the attempt to join Wi-Fi is over.
pub fn wifi_status_text(connected: bool) -> (t: &'static str)
    ensures
        connected ==> t@ == "Connected to wifi!"@,
        !connected ==> t@ == "Couldn't connect to wifi!"@,
{
    if connected {
        "Connected to wifi!"
    } else {
        "Couldn't connect to wifi!"
    }
}

} // verus!
