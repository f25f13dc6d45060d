//! The Wi-Fi tile's state: what the radio reported, and the join in
//! progress with its password page.
//!
//! Every method here decides; none talks to NetworkManager. A method that
//! starts a join returns the [`Join`] to perform, and its outcome comes back
//! as an [`Event`].
use vstd::prelude::*;

use super::{join_kind_spec, views, Details, Error, JoinKind, Network, NetworkView};
use crate::modules::Availability;
use crate::text::{copy_opt, holds_text, opt_text, same_text};

verus! {

/// Everything one poll of NetworkManager reports.
#[derive(Debug, Clone)]
pub struct Snapshot {
    pub enabled: bool,
    pub hardware_killed: bool,
    pub airplane_mode: bool,
    pub connected_ssid: Option<String>,
    pub networks: Vec<Network>,
    pub details: Details,
}

impl Default for Snapshot {
    fn default() -> (r: Self)
        ensures
            !r.enabled && !r.hardware_killed && !r.airplane_mode,
            r.connected_ssid is None,
            r.networks@.len() == 0,
            r.details == Details::empty_spec(),
    {
        Snapshot {
            enabled: false,
            hardware_killed: false,
            airplane_mode: false,
            connected_ssid: None,
            networks: Vec::new(),
            details: Details::default(),
        }
    }
}

/// What the backend reports back.
#[derive(Debug, Clone)]
pub enum Event {
    Snapshot(Box<Snapshot>),
    Unavailable,
    Connected(String),
    Failed(String, Error),
}

/// A join to start: the network, and the password to offer if one was typed.
#[derive(Debug, Clone, PartialEq, Eq)]
pub struct Join {
    pub ssid: String,
    pub password: Option<String>,
}

#[derive(Debug, Clone)]
pub struct State {
    pub availability: Availability,
    pub enabled: bool,
    /// rfkill has the radio off. `enabled = true` is a no-op until this clears,
    /// so the toggle must say so rather than appearing to do nothing.
    pub hardware_killed: bool,
    pub airplane_mode: bool,
    pub connected_ssid: Option<String>,
    pub networks: Vec<Network>,
    pub details: Details,
    /// Set while the Wi-Fi page is open, to scan faster.
    pub scanning: bool,
    /// SSID whose password field is showing.
    pub password_for: Option<String>,
    pub password_input: String,
    /// SSID currently being joined.
    pub connecting: Option<String>,
    pub last_error: Option<(String, Error)>,
}

impl Default for State {
    fn default() -> (r: Self)
        ensures
            r.availability == Availability::Unknown,
            !r.enabled && !r.hardware_killed && !r.airplane_mode && !r.scanning,
            r.connected_ssid is None,
            r.networks@.len() == 0,
            r.details == Details::empty_spec(),
            r.password_for is None,
            r.password_input@.len() == 0,
            r.connecting is None,
            r.last_error is None,
    {
        State {
            availability: Availability::Unknown,
            enabled: false,
            hardware_killed: false,
            airplane_mode: false,
            connected_ssid: None,
            networks: Vec::new(),
            details: Details::default(),
            scanning: false,
            password_for: None,
            password_input: String::new(),
            connecting: None,
            last_error: None,
        }
    }
}

/// The first network in `s` called `name`.
pub open spec fn named(s: Seq<NetworkView>, name: Seq<char>) -> Option<NetworkView>
    decreases s.len(),
{
    if s.len() == 0 {
        None
    } else if s[0].ssid == name {
        Some(s[0])
    } else {
        named(s.drop_first(), name)
    }
}

/// Whether a submit of the password field took `before` to `after` and
/// returned `r`: refused with nothing changed when no field is open, the
/// typed password is empty, or a join for that network is already running;
/// otherwise the join starts with the typed password.
pub open spec fn submits(before: State, after: State, r: Option<Join>) -> bool {
    let refused = before.password_for is None || before.password_input@.len() == 0 || opt_text(
        before.connecting,
    ) == opt_text(before.password_for);
    &&& refused ==> r is None && after == before
    &&& !refused ==> {
        &&& r is Some
        &&& Some(r->0.ssid@) == opt_text(before.password_for)
        &&& opt_text(r->0.password) == Some(before.password_input@)
        &&& opt_text(after.connecting) == opt_text(before.password_for)
        &&& after.last_error is None
        &&& after.same_radio(before)
        &&& after.password_for == before.password_for
        &&& after.password_input == before.password_input
    }
}

/// What taking in a report does to the module: the scan setting is kept,
/// and each kind of report changes what its doc says.
pub open spec fn updates(before: State, after: State, event: Event) -> bool {
    &&& after.scanning == before.scanning
    &&& match event {
            Event::Snapshot(snapshot) => {
                &&& after.availability == Availability::Available
                &&& after.enabled == snapshot.enabled
                &&& after.hardware_killed == snapshot.hardware_killed
                &&& after.airplane_mode == snapshot.airplane_mode
                &&& after.connected_ssid == snapshot.connected_ssid
                &&& after.networks == snapshot.networks
                &&& after.details == snapshot.details
                // A scan landing mid-join clears the spinner only once
                // the join it is waiting on shows as connected.
                &&& (if before.connecting is Some && opt_text(snapshot.connected_ssid)
                    == opt_text(before.connecting) {
                    after.connecting is None
                } else {
                    after.connecting == before.connecting
                })
                &&& after.password_for == before.password_for
                &&& after.password_input == before.password_input
                &&& after.last_error == before.last_error
            },
            Event::Unavailable => {
                &&& after.availability == Availability::Unavailable
                &&& !after.enabled
                &&& after.connected_ssid is None
                &&& after.networks@.len() == 0
                &&& after.details == Details::empty_spec()
                &&& after.hardware_killed == before.hardware_killed
                &&& after.airplane_mode == before.airplane_mode
                &&& after.connecting == before.connecting
                &&& after.password_for == before.password_for
                &&& after.password_input == before.password_input
                &&& after.last_error == before.last_error
            },
            Event::Connected(ssid) => {
                &&& before.settles(after, ssid@)
                &&& before.releases_for(after, ssid@)
                &&& after.connected_ssid == Some(ssid)
                &&& after.availability == before.availability
                &&& after.enabled == before.enabled
                &&& after.hardware_killed == before.hardware_killed
                &&& after.airplane_mode == before.airplane_mode
                &&& after.networks == before.networks
                &&& after.details == before.details
            },
            Event::Failed(ssid, error) => {
                &&& before.settles(after, ssid@)
                // A wrong password keeps the field open so it can be
                // corrected; anything else releases it.
                &&& (if error is AuthFailed {
                    &&& after.password_for == before.password_for
                    &&& after.password_input == before.password_input
                } else if opt_text(before.password_for) == Some(ssid@) {
                    &&& after.password_for is None
                    &&& after.password_input@.len() == 0
                } else {
                    &&& after.password_for == before.password_for
                    &&& after.password_input == before.password_input
                })
                &&& after.last_error == Some((ssid, error))
                &&& after.connected_ssid == before.connected_ssid
                &&& after.availability == before.availability
                &&& after.enabled == before.enabled
                &&& after.hardware_killed == before.hardware_killed
                &&& after.airplane_mode == before.airplane_mode
                &&& after.networks == before.networks
                &&& after.details == before.details
            },
        }
}

/// What choosing `ssid` from the list does: nothing for a network that is
/// not listed, already connected or joinable only from Settings; the
/// password field for one that needs a password; otherwise a join starts.
pub open spec fn selects(before: State, after: State, ssid: Seq<char>, r: Option<Join>) -> bool {
    match named(views(before.networks@), ssid) {
            None => r is None && after == before,
            Some(n) => match join_kind_spec(n) {
                JoinKind::AlreadyConnected | JoinKind::UnsupportedEnterprise => r is None
                    && after == before,
                JoinKind::NeedsPassword => {
                    &&& r is None
                    &&& opt_text(after.password_for) == Some(ssid)
                    &&& after.password_input@.len() == 0
                    &&& after.last_error is None
                    &&& after.same_radio(before)
                    &&& after.connecting == before.connecting
                },
                JoinKind::Direct => {
                    &&& r matches Some(j) && j.ssid@ == ssid && j.password is None
                    &&& opt_text(after.connecting) == Some(ssid)
                    &&& after.last_error is None
                    &&& after.same_radio(before)
                    &&& after.password_for == before.password_for
                    &&& after.password_input == before.password_input
                },
            },
        }
}

/// Submitting the password field twice starts one join: the second submit
/// finds that join running and is refused with nothing changed.
pub proof fn law_submitting_twice_starts_one_join(
    first: State,
    second: State,
    third: State,
    started: Option<Join>,
    again: Option<Join>,
)
    requires
        submits(first, second, started),
        started is Some,
        submits(second, third, again),
    ensures
        again is None,
        third == second,
{
}

/// The fluent key of the one-line summary.
pub open spec fn summary_key_spec(airplane: bool, killed: bool, enabled: bool, connected: bool) -> &'static str {
    if airplane {
        "wifi-airplane"
    } else if killed {
        "wifi-hardware-off"
    } else if !enabled {
        "wifi-off"
    } else if connected {
        "wifi-connected"
    } else {
        "wifi-disconnected"
    }
}

impl State {
    /// The password state after a join for `ssid` resolves: released only if
    /// it belongs to `ssid`.
    pub open spec fn releases_for(self, after: State, ssid: Seq<char>) -> bool {
        if opt_text(self.password_for) == Some(ssid) {
            &&& after.password_for is None
            &&& after.password_input@.len() == 0
            &&& after.last_error is None
        } else {
            &&& after.password_for == self.password_for
            &&& after.password_input == self.password_input
            &&& after.last_error == self.last_error
        }
    }

    /// The in-flight marker after a join for `ssid` resolves: cleared only
    /// if it was that join.
    pub open spec fn settles(self, after: State, ssid: Seq<char>) -> bool {
        if opt_text(self.connecting) == Some(ssid) {
            after.connecting is None
        } else {
            after.connecting == self.connecting
        }
    }

    /// One-line state for the tile: the network name, or why there isn't one.
    ///
    /// For `wifi-connected` the caller substitutes the SSID itself.
    pub fn summary_key(&self) -> (r: &'static str)
        ensures
            r == summary_key_spec(
                self.airplane_mode,
                self.hardware_killed,
                self.enabled,
                self.connected_ssid is Some,
            ),
    {
        if self.airplane_mode {
            "wifi-airplane"
        } else if self.hardware_killed {
            "wifi-hardware-off"
        } else if !self.enabled {
            "wifi-off"
        } else if self.connected_ssid.is_some() {
            "wifi-connected"
        } else {
            "wifi-disconnected"
        }
    }

    pub fn update(&mut self, event: Event)
        ensures
            updates(*old(self), *final(self), event),
    {
        match event {
            Event::Snapshot(snapshot) => {
                let snapshot = *snapshot;
                self.availability = Availability::Available;
                self.enabled = snapshot.enabled;
                self.hardware_killed = snapshot.hardware_killed;
                self.airplane_mode = snapshot.airplane_mode;
                self.connected_ssid = snapshot.connected_ssid;
                self.details = snapshot.details;
                self.networks = snapshot.networks;
                let landed = match (&self.connecting, &self.connected_ssid) {
                    (Some(c), Some(s)) => same_text(c.as_str(), s.as_str()),
                    _ => false,
                };
                if landed {
                    self.connecting = None;
                }
            },
            Event::Unavailable => {
                self.availability = Availability::Unavailable;
                self.enabled = false;
                self.connected_ssid = None;
                self.networks = Vec::new();
                self.details = Details::default();
            },
            Event::Connected(ssid) => {
                if holds_text(&self.connecting, ssid.as_str()) {
                    self.connecting = None;
                }
                self.clear_password_state_for(ssid.as_str());
                self.connected_ssid = Some(ssid);
            },
            Event::Failed(ssid, error) => {
                if holds_text(&self.connecting, ssid.as_str()) {
                    self.connecting = None;
                }
                let wrong_password = match error {
                    Error::AuthFailed => true,
                    _ => false,
                };
                if !wrong_password {
                    self.clear_password_state_for(ssid.as_str());
                }
                self.last_error = Some((ssid, error));
            },
        }
    }

    /// Begin joining `ssid`, or open the password field if one is needed.
    ///
    /// Returns the join to start, or `None` when there is nothing to start:
    /// the network is not listed, is already connected, cannot be joined from
    /// here, or needs a password first (the field opens).
    pub fn select(&mut self, ssid: &str) -> (r: Option<Join>)
        ensures
            selects(*old(self), *final(self), ssid@, r),
    {
        let ghost all = views(self.networks@);
        let mut i: usize = 0;
        proof {
            assert(all.skip(0) =~= all);
        }
        while i < self.networks.len() && !same_text(self.networks[i].ssid.as_str(), ssid)
            invariant
                i <= self.networks@.len(),
                all == views(self.networks@),
                named(all.skip(i as int), ssid@) == named(all, ssid@),
            decreases self.networks@.len() - i,
        {
            proof {
                assert(all.skip(i as int).drop_first() =~= all.skip(i + 1));
            }
            i = i + 1;
        }
        proof {
            if i < all.len() {
                assert(all.skip(i as int)[0] == all[i as int]);
            } else {
                assert(all.skip(i as int).len() == 0);
            }
        }
        if i == self.networks.len() {
            return None;
        }
        match self.networks[i].join_kind() {
            JoinKind::AlreadyConnected | JoinKind::UnsupportedEnterprise => None,
            JoinKind::NeedsPassword => {
                self.password_for = Some(ssid.to_owned());
                self.password_input = String::new();
                self.last_error = None;
                None
            },
            JoinKind::Direct => {
                let owned = ssid.to_owned();
                Some(self.begin_join(owned, None))
            },
        }
    }

    /// The radio, list and availability are what `other` has.
    pub open spec fn same_radio(self, other: State) -> bool {
        &&& self.availability == other.availability
        &&& self.enabled == other.enabled
        &&& self.hardware_killed == other.hardware_killed
        &&& self.airplane_mode == other.airplane_mode
        &&& self.connected_ssid == other.connected_ssid
        &&& self.networks == other.networks
        &&& self.details == other.details
        &&& self.scanning == other.scanning
    }

    /// Join the network whose password field is open.
    ///
    /// Refused, with nothing changed, when no field is open, when the typed
    /// password is empty (NetworkManager would reject it seconds later), or
    /// when a join for that network is already running.
    pub fn submit_password(&mut self) -> (r: Option<Join>)
        ensures
            submits(*old(self), *final(self), r),
    {
        let ssid = match copy_opt(&self.password_for) {
            Some(s) => s,
            None => return None,
        };
        if self.password_input.as_str().is_empty() {
            return None;
        }
        if holds_text(&self.connecting, ssid.as_str()) {
            return None;
        }
        let password = self.password_input.clone();
        Some(self.begin_join(ssid, Some(password)))
    }

    fn begin_join(&mut self, ssid: String, password: Option<String>) -> (r: Join)
        ensures
            r.ssid@ == ssid@,
            opt_text(r.password) == opt_text(password),
            opt_text(final(self).connecting) == Some(ssid@),
            final(self).last_error is None,
            final(self).same_radio(*old(self)),
            final(self).password_for == old(self).password_for,
            final(self).password_input == old(self).password_input,
    {
        self.connecting = Some(ssid.clone());
        self.last_error = None;
        Join { ssid, password }
    }

    /// Release the password state, but only if it belongs to `ssid`.
    ///
    /// The guard is the point: a join for one network resolving must not
    /// close the page and discard a password typed for another.
    fn clear_password_state_for(&mut self, ssid: &str)
        ensures
            old(self).releases_for(*final(self), ssid@),
            final(self).same_radio(*old(self)),
            final(self).connecting == old(self).connecting,
    {
        if !holds_text(&self.password_for, ssid) {
            return;
        }
        self.password_for = None;
        self.password_input = String::new();
        self.last_error = None;
    }

    pub fn cancel_password(&mut self)
        ensures
            final(self).password_for is None,
            final(self).password_input@.len() == 0,
            final(self).last_error is None,
            final(self).same_radio(*old(self)),
            final(self).connecting == old(self).connecting,
    {
        self.password_for = None;
        self.password_input = String::new();
        self.last_error = None;
    }

    /// Flip the radio. Switching it off forgets the connection and the list
    /// at once. Returns the state to write.
    pub fn toggle_radio(&mut self) -> (r: bool)
        ensures
            final(self).enabled == !old(self).enabled,
            r == final(self).enabled,
            !final(self).enabled ==> final(self).connected_ssid is None && final(self).networks@.len() == 0,
            final(self).enabled ==> final(self).connected_ssid == old(self).connected_ssid
                && final(self).networks == old(self).networks,
            final(self).airplane_mode == old(self).airplane_mode,
            final(self).hardware_killed == old(self).hardware_killed,
            final(self).connecting == old(self).connecting,
            final(self).password_for == old(self).password_for,
    {
        self.enabled = !self.enabled;
        if !self.enabled {
            self.connected_ssid = None;
            self.networks = Vec::new();
        }
        self.enabled
    }

    /// Flip airplane mode. Turning it on kills the Wi-Fi radio too, shown at
    /// once rather than a poll later. Returns the state to write.
    pub fn toggle_airplane_mode(&mut self) -> (r: bool)
        ensures
            final(self).airplane_mode == !old(self).airplane_mode,
            r == final(self).airplane_mode,
            final(self).airplane_mode ==> !final(self).enabled && final(self).connected_ssid is None
                && final(self).networks@.len() == 0,
            !final(self).airplane_mode ==> final(self).enabled == old(self).enabled
                && final(self).connected_ssid == old(self).connected_ssid
                && final(self).networks == old(self).networks,
            final(self).hardware_killed == old(self).hardware_killed,
            final(self).connecting == old(self).connecting,
            final(self).password_for == old(self).password_for,
    {
        self.airplane_mode = !self.airplane_mode;
        if self.airplane_mode {
            self.enabled = false;
            self.connected_ssid = None;
            self.networks = Vec::new();
        }
        self.airplane_mode
    }
}

/// How the last join error reads: a fluent key, and the text its one
/// argument takes, if it takes one.
#[derive(Debug, Clone, PartialEq, Eq)]
pub struct ErrorText {
    pub key: &'static str,
    pub argument: Option<String>,
}

/// Whether `r` is how the error `last` reads.
pub open spec fn error_reads(last: Option<(String, Error)>, r: Option<ErrorText>) -> bool {
    match last {
        None => r is None,
        Some((ssid, error)) => match error {
            Error::AuthFailed => r matches Some(t) && t.key == "wifi-auth-failed" && opt_text(t.argument)
                == Some(ssid@),
            Error::NeedsAuthorisation => r matches Some(t) && t.key == "wifi-needs-authorisation"
                && t.argument is None,
            Error::Timeout => r matches Some(t) && t.key == "wifi-timeout" && opt_text(t.argument) == Some(
                ssid@,
            ),
            Error::Other(reason) => if reason@.len() > 0 {
                r matches Some(t) && t.key == "wifi-failed" && opt_text(t.argument) == Some(reason@)
            } else {
                r is None
            },
        },
    }
}

impl State {
    /// The last join error as text, if there is one worth showing: a failure
    /// with no reason at all says nothing.
    pub fn error_text(&self) -> (r: Option<ErrorText>)
        ensures
            error_reads(self.last_error, r),
    {
        let (ssid, error) = match &self.last_error {
            Some(e) => (&e.0, &e.1),
            None => return None,
        };
        match error {
            Error::AuthFailed => Some(ErrorText { key: "wifi-auth-failed", argument: Some(ssid.clone()) }),
            Error::NeedsAuthorisation => Some(ErrorText { key: "wifi-needs-authorisation", argument: None }),
            Error::Timeout => Some(ErrorText { key: "wifi-timeout", argument: Some(ssid.clone()) }),
            Error::Other(reason) => {
                if reason.as_str().is_empty() {
                    None
                } else {
                    Some(ErrorText { key: "wifi-failed", argument: Some(reason.clone()) })
                }
            },
        }
    }

    /// The last join error, but only when it is about the network `about`:
    /// several joins can be in flight, and a failure for one must not show
    /// under another's password field.
    pub fn error_for(&self, about: &str) -> (r: Option<ErrorText>)
        ensures
            match self.last_error {
                Some((ssid, _)) if ssid@ == about@ => error_reads(self.last_error, r),
                _ => r is None,
            },
    {
        match &self.last_error {
            Some(e) => {
                if same_text(e.0.as_str(), about) {
                    self.error_text()
                } else {
                    None
                }
            },
            None => None,
        }
    }

    /// The strength of the connected network as the list has it, or nothing
    /// when it is not listed.
    pub fn connected_strength(&self) -> (r: u8)
        ensures
            match self.connected_ssid {
                Some(s) => match named(views(self.networks@), s@) {
                    Some(n) => r == n.strength,
                    None => r == 0,
                },
                None => r == 0,
            },
    {
        let ssid = match &self.connected_ssid {
            Some(s) => s,
            None => return 0,
        };
        let ghost all = views(self.networks@);
        let mut i: usize = 0;
        proof {
            assert(all.skip(0) =~= all);
        }
        while i < self.networks.len() && !same_text(self.networks[i].ssid.as_str(), ssid.as_str())
            invariant
                i <= self.networks@.len(),
                all == views(self.networks@),
                named(all.skip(i as int), ssid@) == named(all, ssid@),
            decreases self.networks@.len() - i,
        {
            proof {
                assert(all.skip(i as int).drop_first() =~= all.skip(i + 1));
            }
            i = i + 1;
        }
        proof {
            if i < all.len() {
                assert(all.skip(i as int)[0] == all[i as int]);
            } else {
                assert(all.skip(i as int).len() == 0);
            }
        }
        if i == self.networks.len() {
            0
        } else {
            self.networks[i].strength
        }
    }
}


/// The Wi-Fi summary for each radio state: airplane mode and the hardware
/// switch come first; a radio switched off reads as off; a radio that is on,
/// free and switched on never reads as off, and says connected exactly when
/// a network is connected.
pub proof fn law_the_summary_names_what_the_radio_is_doing(airplane: bool, killed: bool, enabled: bool, connected: bool)
    ensures
        airplane ==> summary_key_spec(airplane, killed, enabled, connected) == "wifi-airplane",
        !airplane && killed ==> summary_key_spec(airplane, killed, enabled, connected) == "wifi-hardware-off",
        !airplane && !killed && !enabled ==> summary_key_spec(airplane, killed, enabled, connected) == "wifi-off",
        !airplane && !killed && enabled ==> {
            &&& summary_key_spec(airplane, killed, enabled, connected) != "wifi-off"
            &&& connected ==> summary_key_spec(airplane, killed, enabled, connected) == "wifi-connected"
            &&& !connected ==> summary_key_spec(airplane, killed, enabled, connected) == "wifi-disconnected"
        },
{
    reveal_strlit("wifi-off");
    reveal_strlit("wifi-connected");
    reveal_strlit("wifi-disconnected");
    assert("wifi-off"@[5] != "wifi-connected"@[5]);
    assert("wifi-off"@.len() != "wifi-disconnected"@.len());
}

} // verus!
