//! DNS provider switching: the providers offered, which one is in effect,
//! and what a manual entry reads as.
//!
//! The settings themselves are NetworkManager's and are written elsewhere;
//! only IPv4 DNS is set, since overriding IPv6 too without handling it
//! would leave the two stacks at different resolvers.
use vstd::prelude::*;

pub mod parse;

pub use parse::{ipv4, parse_servers, trim};

use crate::check::Found;
use crate::modules::Availability;
use crate::text::{contains, decimal, find, joined, push_decimal};

verus! {

/// An IPv4 address, by its four octets in written order.
#[derive(Debug, Clone, Copy, PartialEq, Eq, Structural)]
pub struct Address {
    pub a: u8,
    pub b: u8,
    pub c: u8,
    pub d: u8,
}

impl Address {
    pub fn new(a: u8, b: u8, c: u8, d: u8) -> (r: Address)
        ensures
            r == (Address { a, b, c, d }),
    {
        Address { a, b, c, d }
    }
}

/// What a provider is called: a fluent key for the built-in ones, or the
/// name the user gave.
#[derive(Debug, Clone, PartialEq, Eq)]
pub enum ProviderName {
    Builtin(&'static str),
    Custom(String),
}

/// A set of resolvers; none means "whatever DHCP hands out".
#[derive(Debug, Clone, PartialEq, Eq)]
pub struct Provider {
    pub name: ProviderName,
    pub servers: Vec<Address>,
}

impl Provider {
    /// No override: the network's own resolvers.
    pub fn automatic() -> (r: Self)
        ensures
            r.name == ProviderName::Builtin("dns-automatic"),
            r.servers@.len() == 0,
    {
        Provider { name: ProviderName::Builtin("dns-automatic"), servers: Vec::new() }
    }

    /// The providers every install offers, automatic first.
    pub fn builtins() -> (r: Vec<Self>)
        ensures
            r@.len() == 4,
            builtins_at_front(r@),
    {
        let cloudflare = vec![Address::new(1, 1, 1, 1), Address::new(1, 0, 0, 1)];
        let google = vec![Address::new(8, 8, 8, 8), Address::new(8, 8, 4, 4)];
        let quad9 = vec![Address::new(9, 9, 9, 9), Address::new(149, 112, 112, 112)];
        assert(cloudflare@ == seq![Address { a: 1, b: 1, c: 1, d: 1 }, Address { a: 1, b: 0, c: 0, d: 1 }]);
        let mut out = Vec::new();
        out.push(Provider::automatic());
        out.push(Provider { name: ProviderName::Builtin("dns-cloudflare"), servers: cloudflare });
        out.push(Provider { name: ProviderName::Builtin("dns-google"), servers: google });
        out.push(Provider { name: ProviderName::Builtin("dns-quad9"), servers: quad9 });
        assert(out@[1].servers@ == seq![Address { a: 1, b: 1, c: 1, d: 1 }, Address { a: 1, b: 0, c: 0, d: 1 }]);
        assert(out@[0].servers@ == Seq::<Address>::empty());
        assert(out@[0].name == ProviderName::Builtin("dns-automatic"));
        out
    }

    pub fn is_automatic(&self) -> (r: bool)
        ensures
            r == (self.servers@.len() == 0),
    {
        self.servers.len() == 0
    }
}

/// Whether `ps` starts with the built-in providers: automatic, then
/// Cloudflare, Google and Quad9 with their two resolvers each.
pub open spec fn builtins_at_front(ps: Seq<Provider>) -> bool {
    &&& ps.len() >= 4
    &&& ps[0].name == ProviderName::Builtin("dns-automatic") && ps[0].servers@ == Seq::<Address>::empty()
    &&& ps[1].name == ProviderName::Builtin("dns-cloudflare") && ps[1].servers@ == seq![
        Address { a: 1, b: 1, c: 1, d: 1 },
        Address { a: 1, b: 0, c: 0, d: 1 },
    ]
    &&& ps[2].name == ProviderName::Builtin("dns-google") && ps[2].servers@ == seq![
        Address { a: 8, b: 8, c: 8, d: 8 },
        Address { a: 8, b: 8, c: 4, d: 4 },
    ]
    &&& ps[3].name == ProviderName::Builtin("dns-quad9") && ps[3].servers@ == seq![
        Address { a: 9, b: 9, c: 9, d: 9 },
        Address { a: 149, b: 112, c: 112, d: 112 },
    ]
}

/// Why a change was refused.
#[derive(Debug, Clone, PartialEq, Eq)]
pub enum Error {
    /// The connection is system-owned and NetworkManager wants an admin
    /// password to change it.
    NeedsAuthorisation,
    Other(String),
}

/// Whether NetworkManager's error text says authorisation was refused.
pub open spec fn says_unauthorised(text: Seq<char>) -> bool {
    ||| contains(text, "not authorized"@)
    ||| contains(text, "NotAuthorized"@)
    ||| contains(text, "AuthFailed"@)
}

/// Sort an error NetworkManager reported into the one this applet treats
/// differently and the rest.
pub fn classify(text: String) -> (r: Error)
    ensures
        says_unauthorised(text@) ==> r == Error::NeedsAuthorisation,
        !says_unauthorised(text@) ==> r == Error::Other(text),
{
    if find(text.as_str(), "not authorized") || find(text.as_str(), "NotAuthorized") || find(
        text.as_str(),
        "AuthFailed",
    ) {
        Error::NeedsAuthorisation
    } else {
        Error::Other(text)
    }
}

/// The DNS tile.
#[derive(Debug, Clone)]
pub struct State {
    pub availability: Availability,
    pub providers: Vec<Provider>,
    /// The resolvers the primary connection has now.
    pub current: Vec<Address>,
    pub connection_name: Option<String>,
    /// What is typed in the manual field.
    pub manual_input: String,
    pub last_error: Option<Error>,
}

/// What a read of NetworkManager, or a write to it, came to.
#[derive(Debug, Clone)]
pub enum Event {
    Current { servers: Vec<Address>, connection_name: String },
    Unavailable,
    Applied,
    Failed(Error),
}

/// Whether `servers` is the same set of resolvers as `current`: the same
/// count, each present, in any order.
pub open spec fn same_servers(servers: Seq<Address>, current: Seq<Address>) -> bool {
    servers.len() == current.len() && forall|i: int| 0 <= i < servers.len() ==> current.contains(
        #[trigger] servers[i],
    )
}

/// The first provider matching `current`.
pub open spec fn first_matching(ps: Seq<Provider>, current: Seq<Address>) -> Option<int>
    decreases ps.len(),
{
    if ps.len() == 0 {
        None
    } else if same_servers(ps[0].servers@, current) {
        Some(0)
    } else {
        match first_matching(ps.drop_first(), current) {
            Some(k) => Some(k + 1),
            None => None,
        }
    }
}

/// A custom provider from the config, `[name, address, ...]`: kept only
/// when at least one address reads, since one with none would silently do
/// nothing when chosen.
pub open spec fn custom_provider(entry: Seq<String>) -> Option<(Seq<char>, Seq<Address>)> {
    if entry.len() == 0 {
        None
    } else {
        let servers = listed_addresses(entry.drop_first());
        if servers.len() == 0 {
            None
        } else {
            Some((entry[0]@, servers))
        }
    }
}

/// The addresses among the entries, each read whole, in order.
pub open spec fn listed_addresses(entries: Seq<String>) -> Seq<Address>
    decreases entries.len(),
{
    if entries.len() == 0 {
        Seq::empty()
    } else {
        match parse::ipv4_of(entries.last()@) {
            Some(a) => listed_addresses(entries.drop_last()).push(a),
            None => listed_addresses(entries.drop_last()),
        }
    }
}

/// The usable custom providers among the entries, in order.
pub open spec fn customs_of(entries: Seq<Vec<String>>) -> Seq<(Seq<char>, Seq<Address>)>
    decreases entries.len(),
{
    if entries.len() == 0 {
        Seq::empty()
    } else {
        match custom_provider(entries.last()@) {
            Some(c) => customs_of(entries.drop_last()).push(c),
            None => customs_of(entries.drop_last()),
        }
    }
}

/// Whether `p` is the custom provider `c` describes.
pub open spec fn is_custom(p: Provider, c: (Seq<char>, Seq<Address>)) -> bool {
    &&& p.name matches ProviderName::Custom(n) && n@ == c.0
    &&& p.servers@ == c.1
}

/// Read one custom provider entry.
pub fn parse_custom_provider(entry: &[String]) -> (r: Option<Provider>)
    ensures
        match custom_provider(entry@) {
            Some(c) => r matches Some(p) && is_custom(p, c),
            None => r is None,
        },
{
    if entry.len() == 0 {
        return None;
    }
    let ghost rest = entry@.drop_first();
    let mut servers: Vec<Address> = Vec::new();
    let mut i: usize = 1;
    proof {
        assert(rest.take(0) =~= Seq::<String>::empty());
    }
    while i < entry.len()
        invariant
            1 <= i <= entry@.len(),
            rest == entry@.drop_first(),
            servers@ == listed_addresses(rest.take(i - 1)),
        decreases entry@.len() - i,
    {
        proof {
            assert(rest.take(i as int).drop_last() =~= rest.take(i - 1));
            assert(rest.take(i as int).last() == entry@[i as int]);
        }
        match ipv4(entry[i].as_str()) {
            Some(a) => {
                servers.push(a);
            },
            None => {},
        }
        i = i + 1;
    }
    proof {
        assert(rest.take(i - 1) =~= rest);
    }
    if servers.len() == 0 {
        return None;
    }
    Some(Provider { name: ProviderName::Custom(entry[0].clone()), servers })
}

fn copy_addresses(v: &Vec<Address>) -> (r: Vec<Address>)
    ensures
        r@ == v@,
{
    let mut out: Vec<Address> = Vec::new();
    let mut i: usize = 0;
    while i < v.len()
        invariant
            i <= v@.len(),
            out@ == v@.take(i as int),
        decreases v@.len() - i,
    {
        out.push(v[i]);
        proof {
            assert(out@ =~= v@.take(i + 1));
        }
        i = i + 1;
    }
    proof {
        assert(v@.take(i as int) =~= v@);
    }
    out
}

fn holds(current: &Vec<Address>, a: Address) -> (r: bool)
    ensures
        r == current@.contains(a),
{
    let mut i: usize = 0;
    while i < current.len()
        invariant
            i <= current@.len(),
            forall|j: int| 0 <= j < i ==> current@[j] != a,
        decreases current@.len() - i,
    {
        if current[i] == a {
            proof {
                assert(current@[i as int] == a);
            }
            return true;
        }
        i = i + 1;
    }
    false
}

fn matches_current(servers: &Vec<Address>, current: &Vec<Address>) -> (r: bool)
    ensures
        r == same_servers(servers@, current@),
{
    if servers.len() != current.len() {
        return false;
    }
    let mut i: usize = 0;
    while i < servers.len()
        invariant
            i <= servers@.len(),
            servers@.len() == current@.len(),
            forall|j: int| 0 <= j < i ==> current@.contains(#[trigger] servers@[j]),
        decreases servers@.len() - i,
    {
        if !holds(current, servers[i]) {
            return false;
        }
        i = i + 1;
    }
    true
}

/// Whether `r` is the state [`State::new`] builds from the `custom` entries:
/// the built-in providers followed by the usable custom ones, nothing read.
pub open spec fn as_new(r: State, custom: Seq<Vec<String>>) -> bool {
    &&& r.availability == Availability::Unknown
    &&& builtins_at_front(r.providers@)
    &&& r.providers@.len() == 4 + customs_of(custom).len()
    &&& forall|i: int| 0 <= i < customs_of(custom).len() ==> is_custom(#[trigger] r.providers@[4 + i], customs_of(custom)[i])
    &&& r.current@.len() == 0
    &&& r.connection_name is None
    &&& r.manual_input@.len() == 0
    &&& r.last_error is None
}

impl State {
    /// The built-in providers followed by the usable custom ones, with
    /// nothing read yet.
    pub fn new(custom: &[Vec<String>]) -> (r: Self)
        ensures
            as_new(r, custom@),
    {
        let mut providers = Provider::builtins();
        let mut i: usize = 0;
        proof {
            assert(custom@.take(0) =~= Seq::<Vec<String>>::empty());
        }
        while i < custom.len()
            invariant
                i <= custom@.len(),
                builtins_at_front(providers@),
                providers@.len() == 4 + customs_of(custom@.take(i as int)).len(),
                forall|k: int|
                    0 <= k < customs_of(custom@.take(i as int)).len() ==> is_custom(
                        #[trigger] providers@[4 + k],
                        customs_of(custom@.take(i as int))[k],
                    ),
            decreases custom@.len() - i,
        {
            proof {
                assert(custom@.take(i + 1).drop_last() =~= custom@.take(i as int));
                assert(custom@.take(i + 1).last() == custom@[i as int]);
            }
            let ghost before = providers@;
            match parse_custom_provider(custom[i].as_slice()) {
                Some(p) => {
                    providers.push(p);
                    proof {
                        assert forall|k: int|
                            0 <= k < customs_of(custom@.take(i + 1)).len() implies is_custom(
                            #[trigger] providers@[4 + k],
                            customs_of(custom@.take(i + 1))[k],
                        ) by {
                            if k < customs_of(custom@.take(i as int)).len() {
                                assert(providers@[4 + k] == before[4 + k]);
                            }
                        }
                    }
                },
                None => {},
            }
            i = i + 1;
        }
        proof {
            assert(custom@.take(i as int) =~= custom@);
        }
        State {
            availability: Availability::Unknown,
            providers,
            current: Vec::new(),
            connection_name: None,
            manual_input: String::new(),
            last_error: None,
        }
    }

    /// The provider in effect: the first whose resolvers are the current
    /// ones, in any order.
    pub fn active(&self) -> (r: Option<&Provider>)
        ensures
            match first_matching(self.providers@, self.current@) {
                Some(i) => r == Some(&self.providers@[i]),
                None => r is None,
            },
    {
        let ghost all = self.providers@;
        let mut i: usize = 0;
        proof {
            assert(all.skip(0) =~= all);
        }
        while i < self.providers.len() && !matches_current(&self.providers[i].servers, &self.current)
            invariant
                i <= self.providers@.len(),
                all == self.providers@,
                first_matching(all, self.current@) == match first_matching(all.skip(i as int), self.current@) {
                    Some(k) => Some(k + i),
                    None => None,
                },
            decreases self.providers@.len() - i,
        {
            proof {
                assert(all.skip(i as int).drop_first() =~= all.skip(i + 1));
            }
            i = i + 1;
        }
        proof {
            if i < all.len() {
                assert(all.skip(i as int)[0] == all[i as int]);
            } else {
                assert(all.skip(i as int).len() == 0);
            }
        }
        if i == self.providers.len() {
            None
        } else {
            Some(&self.providers[i])
        }
    }

    pub fn update(&mut self, event: Event)
        ensures
            final(self).providers == old(self).providers,
            final(self).manual_input == old(self).manual_input,
            match event {
                Event::Current { servers, connection_name } => {
                    &&& final(self).availability == Availability::Available
                    &&& final(self).current == servers
                    &&& final(self).connection_name == Some(connection_name)
                    &&& final(self).last_error is None
                },
                Event::Unavailable => {
                    &&& final(self).availability == Availability::Unavailable
                    &&& final(self).current@.len() == 0
                    &&& final(self).connection_name is None
                    &&& final(self).last_error == old(self).last_error
                },
                Event::Applied => {
                    &&& final(self).last_error is None
                    &&& final(self).availability == old(self).availability
                    &&& final(self).current == old(self).current
                    &&& final(self).connection_name == old(self).connection_name
                },
                Event::Failed(error) => {
                    &&& final(self).last_error == Some(error)
                    &&& final(self).availability == old(self).availability
                    &&& final(self).current == old(self).current
                    &&& final(self).connection_name == old(self).connection_name
                },
            },
    {
        match event {
            Event::Current { servers, connection_name } => {
                self.availability = Availability::Available;
                self.current = servers;
                self.connection_name = Some(connection_name);
                self.last_error = None;
            },
            Event::Unavailable => {
                self.availability = Availability::Unavailable;
                self.current = Vec::new();
                self.connection_name = None;
            },
            Event::Applied => {
                self.last_error = None;
            },
            Event::Failed(error) => {
                self.last_error = Some(error);
            },
        }
    }

    /// The provider the manual field describes, named by what was typed,
    /// if any address in it reads.
    pub fn manual_provider(&self) -> (r: Option<Provider>)
        ensures
            ({
                let servers = parse::addresses_in(parse::pieces(self.manual_input@, parse::list_separator()));
                &&& servers.len() == 0 ==> r is None
                &&& servers.len() > 0 ==> (r matches Some(p) && is_custom(p, (parse::trimmed(self.manual_input@), servers)))
            }),
    {
        let servers = parse_servers(self.manual_input.as_str());
        if servers.len() == 0 {
            None
        } else {
            Some(Provider { name: ProviderName::Custom(trim(self.manual_input.as_str())), servers })
        }
    }

    /// Switch to `provider`, showing it at once; returns the resolvers to
    /// write, none meaning back to automatic.
    pub fn apply(&mut self, provider: Provider) -> (r: Vec<Address>)
        ensures
            final(self).current@ == provider.servers@,
            r@ == provider.servers@,
            final(self).last_error is None,
            final(self).availability == old(self).availability,
            final(self).providers == old(self).providers,
            final(self).connection_name == old(self).connection_name,
    {
        self.current = copy_addresses(&provider.servers);
        self.last_error = None;
        provider.servers
    }
}

/// Keys of NetworkManager's `ipv4` settings section that must be left out
/// of an update: it rejects one that echoes them back.
pub const READ_ONLY_KEYS: [&'static str; 2] = ["addresses", "routes"];

/// How the `ipv4` section is rewritten to switch resolvers: `dns` replaced
/// by the new list, and DHCP's own resolvers ignored whenever there is one.
///
/// Without the second half NetworkManager appends the chosen resolvers to
/// the DHCP-provided ones and the switch silently does nothing; back to
/// automatic, leaving it set would suppress DHCP's while offering none.
#[derive(Debug, Clone, PartialEq, Eq)]
pub struct Ipv4Dns {
    pub dns: Vec<Address>,
    pub ignore_auto_dns: bool,
}

/// The `ipv4` DNS settings that put `servers` in effect; none means back to
/// automatic.
pub fn ipv4_dns(servers: Vec<Address>) -> (r: Ipv4Dns)
    ensures
        r.dns@ == servers@,
        r.ignore_auto_dns == (servers@.len() > 0),
{
    let ignore_auto_dns = servers.len() > 0;
    Ipv4Dns { dns: servers, ignore_auto_dns }
}

/// An address written the usual way, `1.1.1.1`.
pub open spec fn address_text(a: Address) -> Seq<char> {
    decimal(a.a as nat) + "."@ + decimal(a.b as nat) + "."@ + decimal(a.c as nat) + "."@ + decimal(a.d as nat)
}

fn push_address(out: &mut String, a: Address)
    ensures
        final(out)@ == old(out)@ + address_text(a),
{
    push_decimal(out, a.a as u64);
    out.append(".");
    push_decimal(out, a.b as u64);
    out.append(".");
    push_decimal(out, a.c as u64);
    out.append(".");
    push_decimal(out, a.d as u64);
    proof {
        assert(final(out)@ =~= old(out)@ + address_text(a));
    }
}

impl Provider {
    /// The second line of a provider's row: its resolvers, comma-separated;
    /// automatic has none to list.
    pub fn servers_summary(&self) -> (r: Option<String>)
        ensures
            self.servers@.len() == 0 ==> r is None,
            self.servers@.len() > 0 ==> (r matches Some(t) && t@ == joined(
                self.servers@.map_values(|a: Address| address_text(a)),
                ", "@,
            )),
    {
        if self.servers.len() == 0 {
            return None;
        }
        Some(write_servers(self.servers.as_slice()))
    }
}

/// The resolvers of a list, written out and comma-separated.
pub open spec fn servers_text(servers: Seq<Address>) -> Seq<char> {
    joined(servers.map_values(|a: Address| address_text(a)), ", "@)
}

pub fn write_servers(servers: &[Address]) -> (r: String)
    ensures
        r@ == servers_text(servers@),
{
    let ghost texts = servers@.map_values(|a: Address| address_text(a));
    let mut out = String::new();
    let mut i: usize = 0;
    while i < servers.len()
        invariant
            i <= servers@.len(),
            texts == servers@.map_values(|a: Address| address_text(a)),
            out@ == joined(texts.take(i as int), ", "@),
        decreases servers@.len() - i,
    {
        proof {
            assert(texts.take(i + 1).drop_last() =~= texts.take(i as int));
            assert(texts.take(i + 1).last() == address_text(servers@[i as int]));
            if i == 0 {
                assert(texts.take(0) =~= Seq::<Seq<char>>::empty());
            }
        }
        if i > 0 {
            out.append(", ");
        }
        push_address(&mut out, servers[i]);
        proof {
            if i == 0 {
                assert(out@ =~= address_text(servers@[0]));
            }
        }
        i = i + 1;
    }
    proof {
        assert(texts.take(i as int) =~= texts);
    }
    out
}

/// The `--check` line for DNS, from a read of the primary connection: its
/// name and the resolvers it is set to, or that it takes DHCP's. No primary
/// connection is absence.
pub fn probe_report(reading: Event) -> (r: Found)
    ensures
        match reading {
            Event::Current { servers, connection_name } => r matches Found::Read(line) && line@ == connection_name@
                + ": "@ + (if servers@.len() == 0 {
                "automatic"@
            } else {
                servers_text(servers@)
            }),
            Event::Unavailable => r matches Found::Absent(e) && e@ == "no primary connection"@,
            _ => r matches Found::Unreadable(e) && e@ == "no reading"@,
        },
{
    let (servers, connection_name) = match reading {
        Event::Current { servers, connection_name } => (servers, connection_name),
        Event::Unavailable => return Found::Absent(String::from_str("no primary connection")),
        _ => return Found::Unreadable(String::from_str("no reading")),
    };
    let mut line = connection_name;
    line.append(": ");
    if servers.len() == 0 {
        line.append("automatic");
    } else {
        let text = write_servers(servers.as_slice());
        line.append(text.as_str());
    }
    Found::Read(line)
}

/// Which provider is in effect does not depend on the order the resolvers
/// are listed in: the same resolvers in any order pick the same provider.
pub proof fn law_the_active_provider_ignores_server_order(
    ps: Seq<Provider>,
    current: Seq<Address>,
    reordered: Seq<Address>,
)
    requires
        current.to_multiset() == reordered.to_multiset(),
    ensures
        first_matching(ps, current) == first_matching(ps, reordered),
    decreases ps.len(),
{
    vstd::seq_lib::to_multiset_len(current);
    vstd::seq_lib::to_multiset_len(reordered);
    assert forall|a: Address| current.contains(a) <==> reordered.contains(a) by {
        vstd::seq_lib::to_multiset_contains(current, a);
        vstd::seq_lib::to_multiset_contains(reordered, a);
    }
    if ps.len() > 0 {
        assert(same_servers(ps[0].servers@, current) == same_servers(ps[0].servers@, reordered));
        law_the_active_provider_ignores_server_order(ps.drop_first(), current, reordered);
    }
}

} // verus!
