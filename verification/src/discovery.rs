//! Finding the players of a household.

use vstd::prelude::*;
use vstd::string::StringExecFns;

use crate::client::SonosClientError;
use crate::ids::ZoneId;
use crate::net::IpAddr;
use crate::sequences;
use crate::text;
use crate::text_map;
use crate::text_map::{order_text, TextOrder};
use crate::topology::ZoneGroupMember;
use crate::types::SonosZone;
use crate::web;
use crate::web::{parse_url, parse_url_host};
use crate::xml;
use crate::xml::{player_url_text, DeviceDescription, DeviceDescriptionError};

verus! {

/// Where search requests go.
pub const SSDP_ADDR: &'static str = "239.255.255.250:1900";

/// The request that asks all players on the network to answer.
pub const SSDP_REQUEST: &'static str =
    "M-SEARCH * HTTP/1.1\r\nHOST: 239.255.255.250:1900\r\nMAN: \"ssdp:discover\"\r\nMX: 1\r\nST: urn:schemas-upnp-org:device:ZonePlayer:1\r\n\r\n";

/// A player that was found: where its description is, and its address.
#[derive(Debug, PartialEq, Eq)]
pub struct DiscoveredDevice {
    pub location: String,
    pub ip: IpAddr,
}

impl Clone for DiscoveredDevice {
    fn clone(&self) -> (r: Self)
        ensures
            r == *self,
    {
        DiscoveredDevice { location: self.location.clone(), ip: self.ip }
    }
}

/// Why players could not be found. What the system or the HTTP client said
/// stands in words.
#[derive(Debug)]
pub enum DiscoveryError {
    Bind(String),
    Send(String),
    Receive(String),
    Url(url::ParseError),
    DescriptionFetch { url: String, source: String },
    DescriptionParse { url: String, source: DeviceDescriptionError },
    Topology(SonosClientError),
}

// ---------------------------------------------------------------------------
// Answers
// ---------------------------------------------------------------------------
/// The location in a line, if it is a location header.
pub open spec fn line_location(line: Seq<char>) -> Option<Seq<char>> {
    match text::find_char_from(line, ':', 0) {
        Some(i) => if text::ascii_lower(line.take(i)) == "location"@ {
            Some(text::trimmed(line.skip(i + 1)))
        } else {
            None
        },
        None => None,
    }
}

/// The end of the first line.
pub open spec fn line_end(s: Seq<char>) -> int {
    match text::find_char_from(s, '\n', 0) {
        Some(i) => i,
        None => s.len() as int,
    }
}

/// The first location in the lines of an answer.
pub open spec fn location_in(s: Seq<char>) -> Option<Seq<char>>
    decreases s.len(),
{
    let end = line_end(s);
    match line_location(s.take(end)) {
        Some(location) => Some(location),
        None => if 0 <= end < s.len() {
            location_in(s.skip(end + 1))
        } else {
            None
        },
    }
}

/// The first location in the lines of an answer's text.
pub fn find_location(response: &str) -> (r: Option<String>)
    ensures
        match r {
            Some(location) => location_in(response@) == Some(location@),
            None => location_in(response@) is None,
        },
{
    let mut rest = text::to_chars(response);
    loop
        invariant
            location_in(response@) == location_in(rest@),
        ensures
            location_in(response@) is None,
        decreases rest@.len(),
    {
        let newline = text::find_char(&rest, '\n', 0);
        proof {
            text::lemma_find_char(rest@, '\n', 0);
        }
        let end: usize = match newline {
            Some(i) => i,
            None => rest.len(),
        };
        let line_text = text::slice_text(&rest, 0, end);
        let line = text::to_chars(line_text.as_str());
        assert(line@ =~= rest@.take(line_end(rest@)));
        if let Some(i) = text::find_char(&line, ':', 0) {
            let name = text::slice_text(&line, 0, i);
            assert(name@ =~= line@.take(i as int));
            let lower = text::lower_text(name.as_str());
            if text::same_text(lower.as_str(), "location") {
                let (first, last): (usize, usize) = text::trim_bounds(&line, i + 1, line.len());
                assert(line@.subrange(i + 1, line@.len() as int) =~= line@.skip(i + 1));
                return Some(text::slice_text(&line, first, last));
            }
        }
        if end == rest.len() {
            break;
        }
        let after = text::slice_text(&rest, end + 1, rest.len());
        assert(after@ =~= rest@.skip(end + 1));
        rest = text::to_chars(after.as_str());
    }
    None
}

/// The location in a player's answer.
pub fn parse_ssdp_location(bytes: &[u8]) -> (r: Option<String>)
    ensures
        match r {
            Some(location) => location_in(text::lossy_text(bytes@)) == Some(location@),
            None => location_in(text::lossy_text(bytes@)) is None,
        },
{
    let response = text::read_lossy(bytes);
    find_location(response.as_str())
}

/// The host in a location, if it has one.
pub fn location_host(location: &str) -> (r: Result<Option<String>, url::ParseError>)
    ensures
        match r {
            Ok(Some(host)) => web::url_host(location@) == Some(Some(host@)),
            Ok(None) => web::url_host(location@) == Some(None::<Seq<char>>),
            Err(_) => web::url_host(location@) is None,
        },
        r is Err <==> web::parsed_url(location@) is None,
{
    parse_url_host(location)
}

/// The player that an answer announces: at the address that is the host in its
/// location, or else at the one that the answer came from.
pub fn announced_device(location: &str, host: Option<IpAddr>, from: IpAddr) -> (r: Result<
    DiscoveredDevice,
    url::ParseError,
>)
    ensures
        match r {
            Ok(device) => {
                &&& web::parsed_url(location@) == Some(device.location@)
                &&& device.ip == match host {
                    Some(ip) => ip,
                    None => from,
                }
            },
            Err(_) => web::parsed_url(location@) is None,
        },
{
    let ip: IpAddr = match host {
        Some(ip) => ip,
        None => from,
    };
    match parse_url(location) {
        Ok(location) => Ok(DiscoveredDevice { location, ip }),
        Err(error) => Err(error),
    }
}

// ---------------------------------------------------------------------------
// Devices
// ---------------------------------------------------------------------------
/// A player by its contents.
pub open spec fn device_key(d: DiscoveredDevice) -> (Seq<char>, IpAddr) {
    (d.location@, d.ip)
}

/// Whether a player comes before another: by location, and then by address.
pub open spec fn device_before(a: (Seq<char>, IpAddr), b: (Seq<char>, IpAddr)) -> bool {
    text_map::text_less(a.0, b.0) || (a.0 == b.0 && a.1.before(b.1))
}

/// The players that answered, each once, in their order.
#[derive(Debug)]
pub struct DeviceSet {
    devices: Vec<DiscoveredDevice>,
}

/// Whether players stand in strict order.
pub open spec fn devices_ordered(devices: Seq<DiscoveredDevice>) -> bool {
    forall|i: int, j: int|
        0 <= i < j < devices.len() ==> device_before(
            device_key(#[trigger] devices[i]),
            device_key(#[trigger] devices[j]),
        )
}

proof fn lemma_before_transitive(
    a: (Seq<char>, IpAddr),
    b: (Seq<char>, IpAddr),
    c: (Seq<char>, IpAddr),
)
    requires
        device_before(a, b),
        device_before(b, c),
    ensures
        device_before(a, c),
{
    if text_map::text_less(a.0, b.0) && text_map::text_less(b.0, c.0) {
        text_map::lemma_less_transitive(a.0, b.0, c.0);
    }
}

impl View for DeviceSet {
    type V = Set<(Seq<char>, IpAddr)>;

    /// The players that answered.
    closed spec fn view(&self) -> Set<(Seq<char>, IpAddr)> {
        Set::new(
            |k: (Seq<char>, IpAddr)|
                exists|i: int| 0 <= i < self.devices@.len() && device_key(
                    #[trigger] self.devices@[i],
                ) == k,
        )
    }
}

impl DeviceSet {
    #[verifier::type_invariant]
    spec fn ordered(self) -> bool {
        devices_ordered(self.devices@)
    }

    /// No players.
    pub fn new() -> (r: Self)
        ensures
            r@ == Set::<(Seq<char>, IpAddr)>::empty(),
    {
        let r = DeviceSet { devices: Vec::new() };
        assert(r@ =~= Set::<(Seq<char>, IpAddr)>::empty());
        r
    }

    /// Notes a player.
    pub fn insert(&mut self, device: DiscoveredDevice)
        ensures
            final(self)@ == old(self)@.insert(device_key(device)),
    {
        proof {
            use_type_invariant(&*self);
        }
        let ghost before = self.devices@;
        let ghost key = device_key(device);
        let mut at: usize = 0;
        while at < self.devices.len()
            invariant
                at <= self.devices@.len(),
                self.devices@ == before,
                *self == *old(self),
                key == device_key(device),
                devices_ordered(before),
                forall|j: int| 0 <= j < at ==> device_before(device_key(#[trigger] before[j]), key),
            ensures
                at <= before.len(),
                self.devices@ == before,
                forall|j: int| 0 <= j < at ==> device_before(device_key(#[trigger] before[j]), key),
                at < before.len() ==> device_before(key, device_key(before[at as int])),
            decreases self.devices@.len() - at,
        {
            let order = order_text(self.devices[at].location.as_str(), device.location.as_str());
            let same: bool = match order {
                TextOrder::Same => true,
                _ => false,
            };
            if same && self.devices[at].ip == device.ip {
                proof {
                    assert(device_key(before[at as int]) == key);
                    assert(self@ =~= old(self)@.insert(key));
                }
                return;
            }
            let earlier: bool = match order {
                TextOrder::Before => true,
                TextOrder::Same => self.devices[at].ip.is_before(&device.ip),
                TextOrder::After => false,
            };
            if !earlier {
                break;
            }
            at = at + 1;
        }
        let mut devices: Vec<DiscoveredDevice> = Vec::new();
        std::mem::swap(&mut devices, &mut self.devices);
        devices.insert(at, device);
        proof {
            let after = devices@;
            assert(after =~= before.insert(at as int, device));
            assert forall|i: int, j: int| 0 <= i < j < after.len() implies device_before(
                device_key(#[trigger] after[i]),
                device_key(#[trigger] after[j]),
            ) by {
                if j < at {
                    assert(device_before(device_key(before[i]), device_key(before[j])));
                } else if i > at {
                    assert(device_before(device_key(before[i - 1]), device_key(before[j - 1])));
                } else if i < at && j > at {
                    assert(device_before(device_key(before[i]), device_key(before[j - 1])));
                } else if i == at {
                    if j - 1 > at {
                        assert(device_before(
                            device_key(before[at as int]),
                            device_key(before[j - 1]),
                        ));
                        lemma_before_transitive(
                            key,
                            device_key(before[at as int]),
                            device_key(before[j - 1]),
                        );
                    }
                }
            }
            assert(devices_ordered(after));
        }
        self.devices = devices;
        proof {
            let after = self.devices@;
            assert forall|k: (Seq<char>, IpAddr)| self@.contains(k) <==> old(self)@.insert(
                key,
            ).contains(k) by {
                if self@.contains(k) {
                    let i = choose|i: int| 0 <= i < after.len() && device_key(
                        #[trigger] after[i],
                    ) == k;
                    if i < at {
                        assert(device_key(before[i]) == k);
                    } else if i > at {
                        assert(device_key(before[i - 1]) == k);
                    }
                }
                if old(self)@.contains(k) {
                    let i = choose|i: int| 0 <= i < before.len() && device_key(
                        #[trigger] before[i],
                    ) == k;
                    if i < at {
                        assert(device_key(after[i]) == k);
                    } else {
                        assert(device_key(after[i + 1]) == k);
                    }
                }
                if k == key {
                    assert(device_key(after[at as int]) == k);
                }
            }
            assert(self@ =~= old(self)@.insert(key));
        }
    }

    /// The players, in their order.
    pub fn into_devices(self) -> (r: Vec<DiscoveredDevice>)
        ensures
            devices_ordered(r@),
            forall|k: (Seq<char>, IpAddr)| #[trigger]
                self@.contains(k) <==> exists|i: int|
                    0 <= i < r@.len() && device_key(#[trigger] r@[i]) == k,
    {
        proof {
            use_type_invariant(&self);
        }
        self.devices
    }
}

/// Where the description of the player at an address is.
pub fn device_description_url(ip: IpAddr) -> (r: Result<String, url::ParseError>)
    ensures
        match r {
            Ok(url) => web::parsed_url(xml::player_url(ip) + "/xml/device_description.xml"@)
                == Some(url@),
            Err(_) => web::parsed_url(xml::player_url(ip) + "/xml/device_description.xml"@) is None,
        },
{
    let mut url = player_url_text(ip);
    url.append("/xml/device_description.xml");
    parse_url(url.as_str())
}

/// Where a player with a location stands among players sorted by location:
/// behind those that do not come after it.
pub open spec fn place_of(sorted: Seq<DiscoveredDevice>, location: Seq<char>) -> int
    decreases sorted.len(),
{
    if sorted.len() > 0 && text_map::text_less(location, sorted.last().location@) {
        place_of(sorted.drop_last(), location)
    } else {
        sorted.len() as int
    }
}

/// Players sorted by location; those with the same location stay in their order.
pub open spec fn by_location(devices: Seq<DiscoveredDevice>) -> Seq<DiscoveredDevice>
    decreases devices.len(),
{
    if devices.len() == 0 {
        Seq::empty()
    } else {
        let sorted = by_location(devices.drop_last());
        sorted.insert(place_of(sorted, devices.last().location@), devices.last())
    }
}

/// Whether two players are the same one: at the same location or address.
pub open spec fn same_player(a: DiscoveredDevice, b: DiscoveredDevice) -> bool {
    a.location@ == b.location@ || a.ip == b.ip
}

/// The players without those that are the same as the one kept before them.
pub open spec fn without_repeats(devices: Seq<DiscoveredDevice>) -> Seq<DiscoveredDevice>
    decreases devices.len(),
{
    if devices.len() == 0 {
        Seq::empty()
    } else {
        let kept = without_repeats(devices.drop_last());
        if kept.len() > 0 && same_player(devices.last(), kept.last()) {
            kept
        } else {
            kept.push(devices.last())
        }
    }
}

proof fn lemma_place_within(sorted: Seq<DiscoveredDevice>, location: Seq<char>)
    ensures
        0 <= place_of(sorted, location) <= sorted.len(),
        forall|i: int|
            place_of(sorted, location) <= i < sorted.len() ==> text_map::text_less(
                location,
                (#[trigger] sorted[i]).location@,
            ),
        place_of(sorted, location) > 0 ==> !text_map::text_less(
            location,
            sorted[place_of(sorted, location) - 1].location@,
        ),
    decreases sorted.len(),
{
    if sorted.len() > 0 && text_map::text_less(location, sorted.last().location@) {
        let rest = sorted.drop_last();
        lemma_place_within(rest, location);
        assert forall|i: int| place_of(sorted, location) <= i < sorted.len() implies
            text_map::text_less(location, (#[trigger] sorted[i]).location@) by {
            if i < rest.len() {
                assert(rest[i] == sorted[i]);
            }
        }
    }
}

/// Players sorted by location; those with the same location stay in their order.
pub fn sort_by_location(devices: Vec<DiscoveredDevice>) -> (r: Vec<DiscoveredDevice>)
    ensures
        r@ == by_location(devices@),
        r@.len() == devices@.len(),
{
    let mut r: Vec<DiscoveredDevice> = Vec::new();
    let mut i: usize = 0;
    assert(devices@.take(0) =~= Seq::empty());
    while i < devices.len()
        invariant
            i <= devices@.len(),
            r@ == by_location(devices@.take(i as int)),
            r@.len() == i,
        decreases devices@.len() - i,
    {
        let device = devices[i].clone();
        let ghost d = device;
        let mut at: usize = r.len();
        assert(r@.take(r@.len() as int) =~= r@);
        while at > 0 && starts_before(device.location.as_str(), r[at - 1].location.as_str())
            invariant
                at <= r@.len(),
                d == device,
                place_of(r@, d.location@) == place_of(r@.take(at as int), d.location@),
            decreases at,
        {
            proof {
                assert(r@.take(at as int).drop_last() =~= r@.take(at - 1));
                assert(r@.take(at as int).last() == r@[at - 1]);
            }
            at = at - 1;
        }
        proof {
            if at > 0 {
                assert(r@.take(at as int).last() == r@[at - 1]);
            }
            assert(at == place_of(r@, d.location@));
            let next = devices@.take(i + 1);
            assert(next.drop_last() =~= devices@.take(i as int));
            assert(next.last() == devices@[i as int]);
        }
        let ghost before = r@;
        r.insert(at, device);
        assert(r@ =~= before.insert(at as int, d));
        i = i + 1;
    }
    assert(devices@.take(i as int) =~= devices@);
    r
}

fn starts_before(a: &str, b: &str) -> (r: bool)
    ensures
        r == text_map::text_less(a@, b@),
{
    match order_text(a, b) {
        TextOrder::Before => true,
        _ => false,
    }
}

/// The players without those that are the same as the one kept before them.
pub fn drop_repeats(devices: &Vec<DiscoveredDevice>) -> (r: Vec<DiscoveredDevice>)
    ensures
        r@ == without_repeats(devices@),
{
    let mut r: Vec<DiscoveredDevice> = Vec::new();
    let mut i: usize = 0;
    assert(devices@.take(0) =~= Seq::empty());
    while i < devices.len()
        invariant
            i <= devices@.len(),
            r@ == without_repeats(devices@.take(i as int)),
        decreases devices@.len() - i,
    {
        proof {
            let next = devices@.take(i + 1);
            assert(next.drop_last() =~= devices@.take(i as int));
            assert(next.last() == devices@[i as int]);
        }
        let device = &devices[i];
        let n: usize = r.len();
        let repeated: bool = n > 0 && (text::same_text(
            device.location.as_str(),
            r[n - 1].location.as_str(),
        ) || device.ip == r[n - 1].ip);
        if !repeated {
            r.push(device.clone());
        }
        i = i + 1;
    }
    assert(devices@.take(i as int) =~= devices@);
    r
}

/// The players that are configured by their addresses, in their order.
pub fn static_devices(ips: &[IpAddr]) -> (r: Result<Vec<DiscoveredDevice>, url::ParseError>)
    ensures
        match r {
            Ok(devices) => devices@.len() == ips@.len() && forall|i: int|
                0 <= i < devices@.len() ==> {
                    &&& (#[trigger] devices@[i]).ip == ips@[i]
                    &&& web::parsed_url(
                        xml::player_url(ips@[i]) + "/xml/device_description.xml"@,
                    ) == Some(devices@[i].location@)
                },
            Err(_) => exists|i: int|
                0 <= i < ips@.len() && web::parsed_url(
                    xml::player_url(#[trigger] ips@[i]) + "/xml/device_description.xml"@,
                ) is None,
        },
{
    let mut devices: Vec<DiscoveredDevice> = Vec::new();
    let mut i: usize = 0;
    while i < ips.len()
        invariant
            i <= ips@.len(),
            devices@.len() == i,
            forall|j: int|
                0 <= j < i ==> {
                    &&& (#[trigger] devices@[j]).ip == ips@[j]
                    &&& web::parsed_url(
                        xml::player_url(ips@[j]) + "/xml/device_description.xml"@,
                    ) == Some(devices@[j].location@)
                },
        decreases ips@.len() - i,
    {
        match device_description_url(ips[i]) {
            Ok(location) => devices.push(DiscoveredDevice { location, ip: ips[i] }),
            Err(error) => return Err(error),
        }
        i = i + 1;
    }
    Ok(devices)
}

/// All players, found or configured, by location and without repeats.
pub fn merge_devices(found: Vec<DiscoveredDevice>, configured: Vec<DiscoveredDevice>) -> (r: Vec<
    DiscoveredDevice,
>)
    ensures
        r@ == without_repeats(by_location(found@ + configured@)),
{
    let mut all: Vec<DiscoveredDevice> = found;
    let mut rest: Vec<DiscoveredDevice> = configured;
    all.append(&mut rest);
    assert(all@ =~= found@ + configured@);
    let sorted = sort_by_location(all);
    drop_repeats(&sorted)
}

/// Sorting loses no player and adds none, and leaves none behind one that comes
/// after it.
pub proof fn sorting_only_orders(devices: Seq<DiscoveredDevice>)
    ensures
        by_location(devices).to_multiset() == devices.to_multiset(),
        forall|i: int, j: int|
            0 <= i < j < by_location(devices).len() ==> !text_map::text_less(
                (#[trigger] by_location(devices)[j]).location@,
                (#[trigger] by_location(devices)[i]).location@,
            ),
    decreases devices.len(),
{
    broadcast use vstd::seq_lib::group_to_multiset_ensures;

    if devices.len() > 0 {
        let rest = devices.drop_last();
        let d = devices.last();
        let sorted = by_location(rest);
        let at = place_of(sorted, d.location@);
        let out = by_location(devices);
        sorting_only_orders(rest);
        lemma_place_within(sorted, d.location@);
        assert(devices =~= rest.push(d));
        assert(out == sorted.insert(at, d));
        assert forall|i: int, j: int| 0 <= i < j < out.len() implies !text_map::text_less(
            (#[trigger] out[j]).location@,
            (#[trigger] out[i]).location@,
        ) by {
            if i < at && j > at {
                assert(out[i] == sorted[i] && out[j] == sorted[j - 1]);
            } else if j < at {
                assert(out[i] == sorted[i] && out[j] == sorted[j]);
            } else if i > at {
                assert(out[i] == sorted[i - 1] && out[j] == sorted[j - 1]);
            } else if i == at {
                assert(out[j] == sorted[j - 1]);
                assert(text_map::text_less(d.location@, sorted[j - 1].location@));
                if text_map::text_less(sorted[j - 1].location@, d.location@) {
                    text_map::lemma_less_transitive(
                        d.location@,
                        sorted[j - 1].location@,
                        d.location@,
                    );
                    text_map::lemma_less_irreflexive(d.location@);
                }
            } else {
                assert(j == at && out[i] == sorted[i]);
                assert(!text_map::text_less(d.location@, sorted[at - 1].location@));
                if text_map::text_less(d.location@, sorted[i].location@) {
                    if i < at - 1 {
                        assert(!text_map::text_less(sorted[at - 1].location@, sorted[i].location@));
                        if sorted[i].location@ != sorted[at - 1].location@ {
                            text_map::lemma_less_total(
                                sorted[i].location@,
                                sorted[at - 1].location@,
                            );
                            text_map::lemma_less_transitive(
                                d.location@,
                                sorted[i].location@,
                                sorted[at - 1].location@,
                            );
                        }
                    }
                }
            }
        }
    } else {
        assert(by_location(devices) =~= devices);
    }
}

/// Players that stand next to each other once repeats are dropped are different
/// ones, and every one of them was there before.
pub proof fn no_player_is_repeated(devices: Seq<DiscoveredDevice>, i: int)
    ensures
        0 <= i < without_repeats(devices).len() - 1 ==> !same_player(
            without_repeats(devices)[i + 1],
            without_repeats(devices)[i],
        ),
        0 <= i < without_repeats(devices).len() ==> devices.contains(without_repeats(devices)[i]),
        devices.len() > 0 ==> without_repeats(devices).len() > 0 && without_repeats(devices)[0]
            == devices[0],
    decreases devices.len(),
{
    if devices.len() > 0 {
        let rest = devices.drop_last();
        let kept = without_repeats(rest);
        let out = without_repeats(devices);
        no_player_is_repeated(rest, i);
        assert(devices[devices.len() - 1] == devices.last());
        if 0 <= i < out.len() && i < kept.len() {
            assert(rest.contains(kept[i]));
            let k = choose|k: int| 0 <= k < rest.len() && rest[k] == kept[i];
            assert(devices[k] == kept[i]);
            assert(out[i] == kept[i]);
        }
        if rest.len() > 0 {
            assert(rest[0] == devices[0]);
        } else {
            assert(kept =~= Seq::empty());
        }
    }
}

// ---------------------------------------------------------------------------
// Zones
// ---------------------------------------------------------------------------
/// The zone of a described player, visible and in no group's lead as far as is
/// known.
pub fn zone_from_description(description: DeviceDescription, ip: IpAddr) -> (r: SonosZone)
    ensures
        ({
            let id = xml::without_prefix(description.udn@, "uuid:"@);
            &&& r.id@ == id
            &&& r.rincon_id@ == id
            &&& r.room_name@ == description.room_name@
            &&& r.model@ == description.model_name@
            &&& r.ip == ip
            &&& r.is_visible_room
            &&& !r.is_group_coordinator
        }),
{
    let rincon_id = description.rincon_id();
    SonosZone {
        id: ZoneId::new(rincon_id.as_str()),
        room_name: description.room_name,
        ip,
        model: description.model_name,
        rincon_id,
        is_visible_room: true,
        is_group_coordinator: false,
    }
}

/// The last room of a topology that is a player's.
pub open spec fn member_for(topology: Seq<ZoneGroupMember>, rincon_id: Seq<char>) -> Option<
    ZoneGroupMember,
>
    decreases topology.len(),
{
    if topology.len() == 0 {
        None
    } else if topology.last().uuid@ == rincon_id {
        Some(topology.last())
    } else {
        member_for(topology.drop_last(), rincon_id)
    }
}

/// Whether a zone is another one with what the topology says of it: whether it
/// is visible, whether it leads its group, and its name, where it has one.
pub open spec fn is_enriched(after: SonosZone, before: SonosZone, member: Option<ZoneGroupMember>) -> bool {
    match member {
        Some(m) => {
            &&& after.id == before.id
            &&& after.ip == before.ip
            &&& after.model == before.model
            &&& after.rincon_id == before.rincon_id
            &&& after.is_visible_room == m.is_visible_room
            &&& after.is_group_coordinator == m.is_group_coordinator
            &&& after.room_name@ == if m.zone_name@.len() > 0 {
                m.zone_name@
            } else {
                before.room_name@
            }
        },
        None => after == before,
    }
}

fn find_member<'a>(topology: &'a Vec<ZoneGroupMember>, rincon_id: &str) -> (r: Option<
    &'a ZoneGroupMember,
>)
    ensures
        match r {
            Some(m) => member_for(topology@, rincon_id@) == Some(*m),
            None => member_for(topology@, rincon_id@) is None,
        },
{
    let mut n: usize = topology.len();
    assert(topology@.take(n as int) =~= topology@);
    while n > 0
        invariant
            n <= topology@.len(),
            member_for(topology@, rincon_id@) == member_for(topology@.take(n as int), rincon_id@),
        decreases n,
    {
        proof {
            assert(topology@.take(n as int).last() == topology@[n - 1]);
            assert(topology@.take(n as int).drop_last() =~= topology@.take(n - 1));
        }
        if text::same_text(topology[n - 1].uuid.as_str(), rincon_id) {
            return Some(&topology[n - 1]);
        }
        n = n - 1;
    }
    None
}

/// Zones with what the topology of their household says of each.
pub fn enrich_zones(zones: &Vec<SonosZone>, topology: &Vec<ZoneGroupMember>) -> (r: Vec<SonosZone>)
    ensures
        r@.len() == zones@.len(),
        forall|i: int|
            0 <= i < r@.len() ==> is_enriched(
                #[trigger] r@[i],
                zones@[i],
                member_for(topology@, zones@[i].rincon_id@),
            ),
{
    let mut r: Vec<SonosZone> = Vec::new();
    let mut i: usize = 0;
    while i < zones.len()
        invariant
            i <= zones@.len(),
            r@.len() == i,
            forall|j: int|
                0 <= j < i ==> is_enriched(
                    #[trigger] r@[j],
                    zones@[j],
                    member_for(topology@, zones@[j].rincon_id@),
                ),
        decreases zones@.len() - i,
    {
        let mut zone = zones[i].clone();
        if let Some(member) = find_member(topology, zones[i].rincon_id.as_str()) {
            zone.is_visible_room = member.is_visible_room;
            zone.is_group_coordinator = member.is_group_coordinator;
            if !member.zone_name.as_str().is_empty() {
                zone.room_name = member.zone_name.clone();
            }
        }
        r.push(zone);
        i = i + 1;
    }
    r
}

// ---------------------------------------------------------------------------
// Laws on what is found
// ---------------------------------------------------------------------------
/// An announcement is read line by line: a line that names no location is passed
/// over, and the first one that does gives it, without the spaces around it,
/// whatever the case of its name.
pub proof fn the_first_location_counts(
    line: Seq<char>,
    rest: Seq<char>,
    name: Seq<char>,
    value: Seq<char>,
)
    requires
        !line.contains('\n'),
    ensures
        line == name + seq![':'] + value && !name.contains(':') && text::ascii_lower(name)
            == "location"@ ==> location_in(line + seq!['\n'] + rest) == Some(text::trimmed(value))
            && location_in(line) == Some(text::trimmed(value)),
        line == name + seq![':'] + value && !name.contains(':') && text::ascii_lower(name)
            != "location"@ ==> location_in(line + seq!['\n'] + rest) == location_in(rest)
            && location_in(line) is None,
        !line.contains(':') ==> location_in(line + seq!['\n'] + rest) == location_in(rest)
            && location_in(line) is None,
{
    let s = line + seq!['\n'] + rest;
    let end = line.len() as int;
    assert(s[end] == '\n');
    assert forall|j: int| 0 <= j < end implies s[j] != '\n' by {
        assert(line.contains(line[j]));
    }
    text::lemma_find_char_at(s, '\n', 0, end);
    assert(s.take(end) =~= line);
    assert(s.skip(end + 1) =~= rest);
    text::lemma_find_char(line, '\n', 0);
    assert(line_end(line) == end) by {
        match text::find_char_from(line, '\n', 0) {
            Some(i) => {
                assert(line.contains(line[i]));
            },
            None => {},
        }
    }
    assert(line.take(end) =~= line);
    if line == name + seq![':'] + value && !name.contains(':') {
        let n = name.len() as int;
        assert(line[n] == ':');
        assert forall|j: int| 0 <= j < n implies line[j] != ':' by {
            assert(name.contains(name[j]));
        }
        text::lemma_find_char_at(line, ':', 0, n);
        assert(line.take(n) =~= name);
        assert(line.skip(n + 1) =~= value);
    }
    if !line.contains(':') {
        text::lemma_find_char(line, ':', 0);
        match text::find_char_from(line, ':', 0) {
            Some(i) => {
                assert(line.contains(line[i]));
            },
            None => {},
        }
    }
}

/// Callers get the location of an announcement by this rule.
pub proof fn callers_get_the_location(
    response: &str,
    r: Option<String>,
    bytes: &[u8],
    of_bytes: Option<String>,
)
    requires
        call_ensures(find_location, (response,), r),
        call_ensures(parse_ssdp_location, (bytes,), of_bytes),
        text::lossy_text(bytes@) == response@,
    ensures
        r is Some <==> location_in(response@) is Some,
        r matches Some(location) ==> location_in(response@) == Some(location@),
        of_bytes is Some <==> r is Some,
        of_bytes matches Some(location) ==> r->0@ == location@,
{
}

/// An announced device is at the address that its location names, or else at the
/// one that it was heard from.
pub proof fn announced_devices_are_where_they_say(
    location: &str,
    host: Option<IpAddr>,
    from: IpAddr,
    r: Result<DiscoveredDevice, url::ParseError>,
)
    requires
        call_ensures(announced_device, (location, host, from), r),
    ensures
        r is Ok <==> web::parsed_url(location@) is Some,
        r matches Ok(d) ==> (host matches Some(ip) ==> d.ip == ip),
        r matches Ok(d) ==> (host is None ==> d.ip == from),
        r matches Ok(d) ==> web::parsed_url(location@) == Some(d.location@),
{
}

/// Of several members with one identifier the last one counts; without any there
/// is none.
pub proof fn the_last_member_counts(topology: Seq<ZoneGroupMember>, id: Seq<char>, i: int)
    requires
        -1 <= i < topology.len(),
        forall|k: int| i < k < topology.len() ==> (#[trigger] topology[k]).uuid@ != id,
        i >= 0 ==> topology[i].uuid@ == id,
    ensures
        i >= 0 ==> member_for(topology, id) == Some(topology[i]),
        i == -1 ==> member_for(topology, id) is None,
    decreases topology.len(),
{
    if topology.len() > 0 && i < topology.len() - 1 {
        assert(topology[topology.len() - 1].uuid@ != id);
        the_last_member_counts(topology.drop_last(), id, i);
    }
}

/// The zones that a caller gets are those it gave, in order. One that the
/// topology knows is as visible and as leading as it says there, and has the name
/// it has there, if any; all else of it stays, and so does every other zone.
pub proof fn zones_are_as_the_topology_says(
    zones: &Vec<SonosZone>,
    topology: &Vec<ZoneGroupMember>,
    r: Vec<SonosZone>,
    n: int,
    i: int,
)
    requires
        call_ensures(enrich_zones, (zones, topology), r),
        0 <= n < zones@.len(),
        -1 <= i < topology@.len(),
        forall|k: int|
            i < k < topology@.len() ==> (#[trigger] topology@[k]).uuid@ != zones@[n].rincon_id@,
        i >= 0 ==> topology@[i].uuid@ == zones@[n].rincon_id@,
    ensures
        r@.len() == zones@.len(),
        i == -1 ==> r@[n] == zones@[n],
        i >= 0 ==> {
            &&& r@[n].is_visible_room == topology@[i].is_visible_room
            &&& r@[n].is_group_coordinator == topology@[i].is_group_coordinator
            &&& topology@[i].zone_name@.len() > 0 ==> r@[n].room_name@ == topology@[i].zone_name@
            &&& topology@[i].zone_name@.len() == 0 ==> r@[n].room_name@ == zones@[n].room_name@
            &&& r@[n].id == zones@[n].id
            &&& r@[n].ip == zones@[n].ip
            &&& r@[n].model == zones@[n].model
            &&& r@[n].rincon_id == zones@[n].rincon_id
        },
{
    the_last_member_counts(topology@, zones@[n].rincon_id@, i);
    assert(is_enriched(r@[n], zones@[n], member_for(topology@, zones@[n].rincon_id@)));
}

/// A player that is described is a visible zone of its own that leads no group
/// yet, with the name and the model of the description and one identifier.
pub proof fn described_players_are_zones(description: DeviceDescription, ip: IpAddr, r: SonosZone)
    requires
        call_ensures(zone_from_description, (description, ip), r),
    ensures
        r.id@ == r.rincon_id@,
        r.room_name@ == description.room_name@,
        r.model@ == description.model_name@,
        r.ip == ip,
        r.is_visible_room && !r.is_group_coordinator,
        !("uuid:"@.is_prefix_of(description.udn@)) ==> r.id@ == description.udn@,
{
    reveal_strlit("uuid:");
    let mark = "uuid:"@;
    let s = description.udn@;
    if text::starts_with(s, mark) {
        assert(s.subrange(0, mark.len() as int) =~= s.take(mark.len() as int));
    }
}

/// Devices with one location keep their order when devices are sorted.
pub proof fn sorting_keeps_equal_devices_in_order(
    devices: Seq<DiscoveredDevice>,
    location: Seq<char>,
)
    ensures
        ({
            let there = |d: DiscoveredDevice| d.location@ == location;
            by_location(devices).filter(there) == devices.filter(there)
        }),
    decreases devices.len(),
{
    let there = |d: DiscoveredDevice| d.location@ == location;
    reveal(Seq::filter);
    if devices.len() > 0 {
        let rest = devices.drop_last();
        let d = devices.last();
        let sorted = by_location(rest);
        let at = place_of(sorted, d.location@);
        sorting_keeps_equal_devices_in_order(rest, location);
        sorting_only_orders(rest);
        lemma_place_within(sorted, d.location@);
        lemma_later_ones_lie_behind(sorted, d.location@);
        let head = sorted.take(at);
        let tail = sorted.skip(at);
        assert(by_location(devices) =~= head + seq![d] + tail);
        assert(sorted =~= head + tail);
        Seq::filter_distributes_over_add(head + seq![d], tail, there);
        Seq::filter_distributes_over_add(head, seq![d], there);
        Seq::filter_distributes_over_add(head, tail, there);
        let one = seq![d];
        assert(one.drop_last() =~= Seq::empty());
        assert(Seq::<DiscoveredDevice>::empty().filter(there) =~= Seq::empty());
        assert(one.last() == d);
        if there(d) {
            assert(tail.filter(there) =~= Seq::empty()) by {
                sequences::lemma_filter_keeps(tail, there);
                if tail.filter(there).len() > 0 {
                    let x = tail.filter(there)[0];
                    assert(tail.filter(there).contains(x));
                    let k = choose|k: int| 0 <= k < tail.len() && tail[k] == x;
                    assert(sorted[at + k] == x);
                    text_map::lemma_less_irreflexive(location);
                }
            }
            assert(one.filter(there) =~= seq![d]);
            assert(by_location(devices).filter(there) =~= devices.filter(there));
        } else {
            assert(one.filter(there) =~= Seq::empty());
            assert(by_location(devices).filter(there) =~= devices.filter(there));
        }
    }
}

proof fn lemma_later_ones_lie_behind(sorted: Seq<DiscoveredDevice>, location: Seq<char>)
    ensures
        forall|k: int|
            place_of(sorted, location) <= k < sorted.len() ==> text_map::text_less(
                location,
                (#[trigger] sorted[k]).location@,
            ),
    decreases sorted.len(),
{
    if sorted.len() > 0 && text_map::text_less(location, sorted.last().location@) {
        lemma_later_ones_lie_behind(sorted.drop_last(), location);
        lemma_place_within(sorted.drop_last(), location);
        assert forall|k: int| place_of(sorted, location) <= k < sorted.len() implies text_map::text_less(
        location, (#[trigger] sorted[k]).location@) by {
            if k < sorted.len() - 1 {
                assert(sorted.drop_last()[k] == sorted[k]);
            }
        }
    }
}

/// No player is lost when repeats are dropped: every device is the player of one
/// that is kept.
pub proof fn no_player_is_lost(devices: Seq<DiscoveredDevice>, i: int)
    requires
        0 <= i < devices.len(),
    ensures
        exists|k: int|
            0 <= k < without_repeats(devices).len() && (#[trigger] without_repeats(devices)[k]
                == devices[i] || same_player(devices[i], without_repeats(devices)[k])),
    decreases devices.len(),
{
    let rest = devices.drop_last();
    let kept = without_repeats(rest);
    let all = without_repeats(devices);
    if i < rest.len() {
        no_player_is_lost(rest, i);
        let k = choose|k: int|
            0 <= k < kept.len() && (#[trigger] kept[k] == rest[i] || same_player(rest[i], kept[k]));
        assert(all[k] == kept[k]);
    } else {
        if kept.len() > 0 && same_player(devices.last(), kept.last()) {
            assert(all[kept.len() - 1] == kept.last());
        } else {
            assert(all[kept.len() as int] == devices.last());
        }
    }
}

/// Found and configured devices are merged in the order of their locations, with
/// no player right after itself; every one of them is there, and no other.
pub proof fn merged_devices_are_all_there(
    found: Vec<DiscoveredDevice>,
    configured: Vec<DiscoveredDevice>,
    r: Vec<DiscoveredDevice>,
    i: int,
    k: int,
)
    requires
        call_ensures(merge_devices, (found, configured), r),
        0 <= i < r@.len(),
        0 <= k < found@.len() + configured@.len(),
    ensures
        found@.contains(r@[i]) || configured@.contains(r@[i]),
        i + 1 < r@.len() ==> r@[i].location@ != r@[i + 1].location@ && r@[i].ip != r@[i + 1].ip,
        exists|j: int|
            0 <= j < r@.len() && (#[trigger] r@[j] == (found@ + configured@)[k] || same_player(
                (found@ + configured@)[k],
                r@[j],
            )),
{
    broadcast use vstd::seq_lib::group_to_multiset_ensures;

    let all = found@ + configured@;
    let sorted = by_location(all);
    sorting_only_orders(all);
    no_player_is_repeated(sorted, i);
    assert(sorted.contains(r@[i]));
    assert(all.to_multiset().count(r@[i]) > 0);
    assert(all.contains(r@[i]));
    let j = choose|j: int| 0 <= j < all.len() && all[j] == r@[i];
    if j < found@.len() {
        assert(found@[j] == r@[i]);
    } else {
        assert(configured@[j - found@.len()] == r@[i]);
    }
    assert(all.contains(all[k]));
    assert(sorted.to_multiset().count(all[k]) > 0);
    assert(sorted.contains(all[k]));
    let m = choose|m: int| 0 <= m < sorted.len() && sorted[m] == all[k];
    no_player_is_lost(sorted, m);
}

/// Every configured address is a device of its own, in order, at the description
/// of the player there; they are there unless one of these cannot be named.
pub proof fn configured_addresses_are_devices(
    ips: &[IpAddr],
    r: Result<Vec<DiscoveredDevice>, url::ParseError>,
    i: int,
)
    requires
        call_ensures(static_devices, (ips,), r),
        0 <= i < ips@.len(),
    ensures
        r matches Ok(devices) ==> devices@.len() == ips@.len() && devices@[i].ip == ips@[i]
            && web::parsed_url(xml::player_url(ips@[i]) + "/xml/device_description.xml"@) == Some(
            devices@[i].location@,
        ),
        web::parsed_url(xml::player_url(ips@[i]) + "/xml/device_description.xml"@) is None ==> r
            is Err,
{
}

/// Devices are ordered by their locations and, where these are the same, by their
/// addresses; of two that differ, exactly one comes first.
pub proof fn devices_are_ordered_by_location(a: DiscoveredDevice, b: DiscoveredDevice)
    ensures
        text_map::text_less(a.location@, b.location@) ==> device_before(
            device_key(a),
            device_key(b),
        ),
        a.location@ == b.location@ && a.ip.before(b.ip) ==> device_before(
            device_key(a),
            device_key(b),
        ),
        device_before(device_key(a), device_key(b)) ==> !device_before(
            device_key(b),
            device_key(a),
        ),
        device_key(a) != device_key(b) ==> device_before(device_key(a), device_key(b))
            || device_before(device_key(b), device_key(a)),
{
    if a.location@ != b.location@ {
        text_map::lemma_less_total(a.location@, b.location@);
    }
    if text_map::text_less(a.location@, b.location@) && text_map::text_less(
        b.location@,
        a.location@,
    ) {
        text_map::lemma_less_transitive(a.location@, b.location@, a.location@);
    }
    text_map::lemma_less_irreflexive(a.location@);
}

/// Callers get devices in the order of their locations, those of one location in
/// the order they were given in, and without repeats right after each other.
pub proof fn callers_get_devices_in_order(
    devices: Vec<DiscoveredDevice>,
    sorted: Vec<DiscoveredDevice>,
    given: &Vec<DiscoveredDevice>,
    kept: Vec<DiscoveredDevice>,
    location: Seq<char>,
    i: int,
)
    requires
        call_ensures(sort_by_location, (devices,), sorted),
        call_ensures(drop_repeats, (given,), kept),
    ensures
        sorted@.to_multiset() == devices@.to_multiset(),
        sorted@.filter(|d: DiscoveredDevice| d.location@ == location) == devices@.filter(
            |d: DiscoveredDevice| d.location@ == location,
        ),
        0 <= i < sorted@.len() - 1 ==> !text_map::text_less(
            sorted@[i + 1].location@,
            sorted@[i].location@,
        ),
        0 <= i < kept@.len() - 1 ==> kept@[i].location@ != kept@[i + 1].location@ && kept@[i].ip
            != kept@[i + 1].ip,
        0 <= i < kept@.len() ==> given@.contains(kept@[i]),
        0 <= i < given@.len() ==> exists|k: int|
            0 <= k < kept@.len() && (#[trigger] kept@[k] == given@[i] || same_player(
                given@[i],
                kept@[k],
            )),
{
    sorting_only_orders(devices@);
    sorting_keeps_equal_devices_in_order(devices@, location);
    no_player_is_repeated(given@, i);
    if 0 <= i < given@.len() {
        no_player_is_lost(given@, i);
    }
}

} // verus!
