//! The popup behind the panel button: which page shows, and what moving
//! between pages does to the Wi-Fi module.
//!
//! Scanning is the expensive part of Wi-Fi, so it runs only while one of its
//! pages is on screen: the list, or the password page reached from it, which
//! keeps scanning so the list is fresh on the way back. The password page is
//! about one network, so it exists only while a network awaits a password;
//! once that clears the popup falls back to the list. And the popup always
//! opens on the grid: leaving it on last time's drill-down is disorienting.
use vstd::prelude::*;

use crate::config::Config;
use crate::modules::network::state::{selects, updates};
use crate::modules::network::{self, Join};
use crate::modules::{custom, dns};
use crate::text::same_text;
use crate::tile_layout::kept_by;

verus! {

/// The pages of the popup.
#[derive(Debug, Clone, Copy, PartialEq, Eq, Structural)]
pub enum Page {
    /// The grid of tiles.
    Root,
    Wifi,
    /// Password entry for one network, reached from the Wi-Fi list.
    WifiConnect,
    Bluetooth,
    Battery,
    Dns,
    Vpn,
}

/// How many networks the Wi-Fi list shows at first: the list sorts the ones
/// worth seeing first, and showing all of them turns a tap into a scroll.
pub const WIFI_INITIAL_ROWS: usize = 5;

/// How many more each press of "show more" reveals.
pub const WIFI_ROW_STEP: usize = 5;

/// The popup's own state.
#[derive(Debug, Clone, Copy, PartialEq, Eq, Structural)]
pub struct Popup {
    pub open: bool,
    pub page: Page,
    /// How many rows of the Wi-Fi list are shown.
    pub wifi_rows: usize,
}

/// The pages Wi-Fi scans behind.
pub open spec fn scans(page: Page) -> bool {
    page == Page::Wifi || page == Page::WifiConnect
}

/// The popup and the Wi-Fi module agree: scanning exactly while the popup
/// is open on a Wi-Fi page, and the password page only while a network
/// awaits a password.
pub open spec fn in_step(p: Popup, wifi: network::State) -> bool {
    &&& wifi.scanning == (p.open && scans(p.page))
    &&& p.page == Page::WifiConnect ==> wifi.password_for is Some
}

/// Everything of the Wi-Fi module that moving between pages leaves alone.
pub open spec fn same_wifi_but_scanning(a: network::State, b: network::State) -> bool {
    &&& a.availability == b.availability
    &&& a.enabled == b.enabled
    &&& a.hardware_killed == b.hardware_killed
    &&& a.airplane_mode == b.airplane_mode
    &&& a.connected_ssid == b.connected_ssid
    &&& a.networks == b.networks
    &&& a.details == b.details
    &&& a.connecting == b.connecting
}

impl Popup {
    /// Closed, on the grid, with the first rows of the Wi-Fi list.
    pub fn new() -> (r: Self)
        ensures
            !r.open,
            r.page == Page::Root,
            r.wifi_rows == WIFI_INITIAL_ROWS,
    {
        Popup { open: false, page: Page::Root, wifi_rows: WIFI_INITIAL_ROWS }
    }

    /// The panel button: close an open popup, stopping the scan, or open a
    /// closed one on the grid with no password page pending and the Wi-Fi
    /// list back to its first rows. Returns whether the popup is now open.
    pub fn toggle(&mut self, wifi: &mut network::State) -> (r: bool)
        ensures
            Step::Toggle.taken(*old(self), *old(wifi), *final(self), *final(wifi)),
            r == final(self).open,
            final(self).open == !old(self).open,
            old(self).open ==> {
                &&& final(self).page == old(self).page
                &&& final(self).wifi_rows == old(self).wifi_rows
                &&& !final(wifi).scanning
                &&& final(wifi).password_for == old(wifi).password_for
                &&& final(wifi).password_input == old(wifi).password_input
                &&& final(wifi).last_error == old(wifi).last_error
            },
            !old(self).open ==> {
                &&& final(self).page == Page::Root
                &&& final(self).wifi_rows == WIFI_INITIAL_ROWS
                &&& final(wifi).scanning == old(wifi).scanning
                &&& final(wifi).password_for is None
                &&& final(wifi).password_input@.len() == 0
                &&& final(wifi).last_error is None
            },
            same_wifi_but_scanning(*final(wifi), *old(wifi)),
    {
        if self.open {
            self.open = false;
            wifi.scanning = false;
            return false;
        }
        self.open = true;
        self.page = Page::Root;
        wifi.cancel_password();
        self.wifi_rows = WIFI_INITIAL_ROWS;
        true
    }

    /// The popup went away by other means (dismissed, or replaced by the
    /// Settings window): the scan stops with it.
    pub fn closed(&mut self, wifi: &mut network::State)
        ensures
            Step::Closed.taken(*old(self), *old(wifi), *final(self), *final(wifi)),
            !final(self).open,
            final(self).page == old(self).page,
            final(self).wifi_rows == old(self).wifi_rows,
            !final(wifi).scanning,
            final(wifi).password_for == old(wifi).password_for,
            final(wifi).password_input == old(wifi).password_input,
            final(wifi).last_error == old(wifi).last_error,
            same_wifi_but_scanning(*final(wifi), *old(wifi)),
    {
        self.open = false;
        wifi.scanning = false;
    }

    /// Go to `page`. Scanning follows the page; a fresh visit to the list
    /// starts from its first rows; leaving the Wi-Fi pages drops a pending
    /// password.
    pub fn navigate(&mut self, page: Page, wifi: &mut network::State)
        ensures
            old(self).open && (page == Page::WifiConnect ==> old(wifi).password_for is Some) ==> Step::Navigate(
                page,
            ).taken(*old(self), *old(wifi), *final(self), *final(wifi)),
            final(self).page == page,
            final(self).open == old(self).open,
            final(self).wifi_rows == (if page == Page::Wifi {
                WIFI_INITIAL_ROWS
            } else {
                old(self).wifi_rows
            }),
            final(wifi).scanning == scans(page),
            scans(page) ==> {
                &&& final(wifi).password_for == old(wifi).password_for
                &&& final(wifi).password_input == old(wifi).password_input
                &&& final(wifi).last_error == old(wifi).last_error
            },
            !scans(page) ==> {
                &&& final(wifi).password_for is None
                &&& final(wifi).password_input@.len() == 0
                &&& final(wifi).last_error is None
            },
            same_wifi_but_scanning(*final(wifi), *old(wifi)),
    {
        self.page = page;
        let scanning = match page {
            Page::Wifi | Page::WifiConnect => true,
            _ => false,
        };
        wifi.scanning = scanning;
        if page == Page::Wifi {
            self.wifi_rows = WIFI_INITIAL_ROWS;
        }
        if !scanning {
            wifi.cancel_password();
        }
    }

    /// Pick a network in the list. When it needs a password the popup moves
    /// to the password page; otherwise the join to start, if any, is
    /// returned.
    pub fn select(&mut self, ssid: &str, wifi: &mut network::State) -> (r: Option<Join>)
        ensures
            old(self).open && scans(old(self).page) ==> Step::Select(ssid@, r).taken(
                *old(self),
                *old(wifi),
                *final(self),
                *final(wifi),
            ),
            selects(*old(wifi), *final(wifi), ssid@, r),
            final(self).page == (if final(wifi).password_for is Some {
                Page::WifiConnect
            } else {
                old(self).page
            }),
            final(self).open == old(self).open,
            final(self).wifi_rows == old(self).wifi_rows,
    {
        let join = wifi.select(ssid);
        if wifi.password_for.is_some() {
            self.page = Page::WifiConnect;
        }
        join
    }

    /// Reveal more of the Wi-Fi list.
    pub fn show_more(&mut self)
        ensures
            forall|wifi: network::State| #[trigger] Step::ShowMore.taken(*old(self), wifi, *final(self), wifi),
            final(self).wifi_rows == (if old(self).wifi_rows + WIFI_ROW_STEP <= usize::MAX {
                old(self).wifi_rows + WIFI_ROW_STEP
            } else {
                usize::MAX as int
            }),
            final(self).page == old(self).page,
            final(self).open == old(self).open,
    {
        self.wifi_rows = self.wifi_rows.saturating_add(WIFI_ROW_STEP);
    }

    /// Give up on the pending password, going back to the list from the
    /// password page.
    pub fn cancel_password(&mut self, wifi: &mut network::State)
        ensures
            Step::CancelPassword.taken(*old(self), *old(wifi), *final(self), *final(wifi)),
            final(self).page == (if old(self).page == Page::WifiConnect {
                Page::Wifi
            } else {
                old(self).page
            }),
            final(self).open == old(self).open,
            final(self).wifi_rows == old(self).wifi_rows,
            final(wifi).password_for is None,
            final(wifi).password_input@.len() == 0,
            final(wifi).last_error is None,
            final(wifi).scanning == old(wifi).scanning,
            same_wifi_but_scanning(*final(wifi), *old(wifi)),
    {
        wifi.cancel_password();
        if self.page == Page::WifiConnect {
            self.page = Page::Wifi;
        }
    }

    /// Take in what the Wi-Fi backend reported. Once no network awaits a
    /// password (joined, or failed in a way a retype cannot fix) the password
    /// page has no subject and falls back to the list; a wrong password keeps
    /// it, with the field ready to correct.
    pub fn wifi_event(&mut self, event: network::Event, wifi: &mut network::State)
        ensures
            Step::WifiEvent(event).taken(*old(self), *old(wifi), *final(self), *final(wifi)),
            updates(*old(wifi), *final(wifi), event),
            final(self).page == (if old(self).page == Page::WifiConnect && final(wifi).password_for is None {
                Page::Wifi
            } else {
                old(self).page
            }),
            final(self).open == old(self).open,
            final(self).wifi_rows == old(self).wifi_rows,
    {
        wifi.update(event);
        if self.page == Page::WifiConnect && wifi.password_for.is_none() {
            self.page = Page::Wifi;
        }
    }
}

/// How many more networks "show more" would reveal, given how many there are
/// and how many rows show: the hidden ones, at most a step's worth, so the
/// button never promises more than a press gives.
pub fn more_to_show(networks: usize, rows: usize) -> (r: usize)
    ensures
        r == (if networks <= rows {
            0
        } else if networks - rows < WIFI_ROW_STEP {
            networks - rows
        } else {
            WIFI_ROW_STEP as int
        }),
{
    let hidden = networks.saturating_sub(rows);
    if hidden < WIFI_ROW_STEP {
        hidden
    } else {
        WIFI_ROW_STEP
    }
}

/// Whatever a user does in the popup, it stays in step with the Wi-Fi
/// module: toggling or dismissing it, moving between pages while it is open
/// (to the password page only with a network awaiting one), picking a
/// network from a Wi-Fi page, cancelling the password, or a report from the
/// backend.
pub proof fn law_the_popup_and_wifi_stay_in_step(
    p: Popup,
    wifi: network::State,
    p2: Popup,
    wifi2: network::State,
    step: Step,
)
    requires
        in_step(p, wifi),
        step.taken(p, wifi, p2, wifi2),
    ensures
        in_step(p2, wifi2),
{
}

/// The popup always opens on the grid, with nothing scanning and no password
/// page pending.
pub proof fn law_the_popup_opens_on_the_grid(p: Popup, wifi: network::State, p2: Popup, wifi2: network::State)
    requires
        in_step(p, wifi),
        !p.open,
        Step::Toggle.taken(p, wifi, p2, wifi2),
    ensures
        p2.open,
        p2.page == Page::Root,
        !wifi2.scanning,
        wifi2.password_for is None,
{
}

/// One thing that can happen to the popup, for stating what every one of
/// them keeps.
pub ghost enum Step {
    Toggle,
    Closed,
    Navigate(Page),
    Select(Seq<char>, Option<Join>),
    ShowMore,
    CancelPassword,
    WifiEvent(network::Event),
}

impl Step {
    /// Whether taking this step from `(p, wifi)` can lead to `(p2, wifi2)`,
    /// by the contract of the method that takes it; moving between pages
    /// and picking a network happen in an open popup, picking from a Wi-Fi
    /// page, and the password page is only ever moved to with a network
    /// awaiting a password.
    pub open spec fn taken(self, p: Popup, wifi: network::State, p2: Popup, wifi2: network::State) -> bool {
        match self {
            Step::Toggle => {
                &&& p2.open == !p.open
                &&& p.open ==> p2.page == p.page && !wifi2.scanning && wifi2.password_for == wifi.password_for
                &&& !p.open ==> p2.page == Page::Root && wifi2.scanning == wifi.scanning
                    && wifi2.password_for is None
            },
            Step::Closed => {
                &&& !p2.open
                &&& p2.page == p.page
                &&& !wifi2.scanning
                &&& wifi2.password_for == wifi.password_for
            },
            Step::Navigate(page) => {
                &&& p.open
                &&& (page == Page::WifiConnect ==> wifi.password_for is Some)
                &&& p2.page == page
                &&& p2.open == p.open
                &&& wifi2.scanning == scans(page)
                &&& (scans(page) ==> wifi2.password_for == wifi.password_for)
                &&& (!scans(page) ==> wifi2.password_for is None)
            },
            Step::Select(ssid, r) => {
                &&& p.open
                &&& scans(p.page)
                &&& selects(wifi, wifi2, ssid, r)
                &&& p2.page == (if wifi2.password_for is Some {
                    Page::WifiConnect
                } else {
                    p.page
                })
                &&& p2.open == p.open
            },
            Step::ShowMore => p2.page == p.page && p2.open == p.open && wifi2 == wifi,
            Step::CancelPassword => {
                &&& p2.page == (if p.page == Page::WifiConnect {
                    Page::Wifi
                } else {
                    p.page
                })
                &&& p2.open == p.open
                &&& wifi2.password_for is None
                &&& wifi2.scanning == wifi.scanning
            },
            Step::WifiEvent(event) => {
                &&& updates(wifi, wifi2, event)
                &&& p2.page == (if p.page == Page::WifiConnect && wifi2.password_for is None {
                    Page::Wifi
                } else {
                    p.page
                })
                &&& p2.open == p.open
            },
        }
    }
}


/// One `[dns] custom_providers` entry, word by word.
pub open spec fn words(entry: Vec<String>) -> Seq<Seq<char>> {
    entry@.map_values(|w: String| w@)
}

/// Whether two lists of custom DNS entries say the same, entry by entry.
pub open spec fn same_providers(a: Seq<Vec<String>>, b: Seq<Vec<String>>) -> bool {
    a.len() == b.len() && forall|i: int| 0 <= i < a.len() ==> words(#[trigger] a[i]) == words(b[i])
}

fn same_entry(a: &Vec<String>, b: &Vec<String>) -> (r: bool)
    ensures
        r == (words(*a) == words(*b)),
{
    if a.len() != b.len() {
        proof {
            assert(words(*a).len() != words(*b).len());
        }
        return false;
    }
    let mut i: usize = 0;
    while i < a.len()
        invariant
            i <= a@.len(),
            a@.len() == b@.len(),
            forall|j: int| 0 <= j < i ==> a@[j]@ == b@[j]@,
        decreases a@.len() - i,
    {
        if !same_text(a[i].as_str(), b[i].as_str()) {
            proof {
                assert(words(*a)[i as int] != words(*b)[i as int]);
            }
            return false;
        }
        i = i + 1;
    }
    proof {
        assert(words(*a) =~= words(*b));
    }
    true
}

fn same_provider_lists(a: &Vec<Vec<String>>, b: &Vec<Vec<String>>) -> (r: bool)
    ensures
        r == same_providers(a@, b@),
{
    if a.len() != b.len() {
        return false;
    }
    let mut i: usize = 0;
    while i < a.len()
        invariant
            i <= a@.len(),
            a@.len() == b@.len(),
            forall|j: int| 0 <= j < i ==> words(#[trigger] a@[j]) == words(b@[j]),
        decreases a@.len() - i,
    {
        if !same_entry(&a[i], &b[i]) {
            return false;
        }
        i = i + 1;
    }
    true
}

/// What the applet holds from its configuration: the configuration itself,
/// the DNS module built from its custom providers, and the custom tiles it
/// draws.
pub struct Loaded {
    pub config: Config,
    pub dns: dns::State,
    pub custom: Vec<custom::Tile>,
}

impl Loaded {
    /// Pick up what the Settings window changed, from the configuration as it
    /// reads now, on opening the popup. The DNS module is rebuilt only when
    /// the custom providers changed, since rebuilding drops what was being
    /// typed into the manual entry; the custom tiles are the usable ones.
    pub fn pick_up(&mut self, fresh: Config)
        ensures
            final(self).config == fresh,
            same_providers(old(self).config.dns.custom_providers@, fresh.dns.custom_providers@) ==> final(self).dns
                == old(self).dns,
            !same_providers(old(self).config.dns.custom_providers@, fresh.dns.custom_providers@) ==> dns::as_new(
                final(self).dns,
                fresh.dns.custom_providers@,
            ),
            custom::views(final(self).custom@) == kept_by(
                custom::views(fresh.custom@),
                Seq::new(fresh.custom@.len(), |i: int| fresh.custom@[i]@.usable()),
            ),
    {
        if !same_provider_lists(&self.config.dns.custom_providers, &fresh.dns.custom_providers) {
            self.dns = dns::State::new(fresh.dns.custom_providers.as_slice());
        }
        self.custom = custom::usable(fresh.custom.as_slice());
        self.config = fresh;
    }
}

} // verus!
