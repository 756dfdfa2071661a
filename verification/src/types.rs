//! Zones, endpoints and streams.

use vstd::prelude::*;
use vstd::string::StringExecFns;

use crate::config::{AirPlayConfig, SonosConfig};
use crate::ids::{PortAllocationError, SessionId, ZoneId};
use crate::ids;
use crate::net::IpAddr;
use crate::paths;
use crate::sequences;
use crate::text;

verus! {

/// A Sonos room.
#[derive(Debug, PartialEq, Eq)]
pub struct SonosZone {
    pub id: ZoneId,
    pub room_name: String,
    pub ip: IpAddr,
    pub model: String,
    pub rincon_id: String,
    pub is_visible_room: bool,
    pub is_group_coordinator: bool,
}

impl Clone for SonosZone {
    fn clone(&self) -> (r: Self)
        ensures
            r == *self,
    {
        SonosZone {
            id: self.id.clone(),
            room_name: self.room_name.clone(),
            ip: self.ip,
            model: self.model.clone(),
            rincon_id: self.rincon_id.clone(),
            is_visible_room: self.is_visible_room,
            is_group_coordinator: self.is_group_coordinator,
        }
    }
}

/// The virtual AirPlay speaker that stands for a Sonos room.
#[derive(Debug, PartialEq, Eq)]
pub struct VirtualAirPlayEndpoint {
    pub zone_id: ZoneId,
    pub display_name: String,
    pub rtsp_port: u16,
    pub persisted_hwaddr: [u8; 6],
    pub pairing_store_path: String,
}

/// The format of a live stream.
#[derive(Clone, Copy, Debug, PartialEq, Eq, Structural)]
pub enum StreamCodec {
    Mp3,
    Aac,
    Wav,
}

/// How far the encoder of a stream has come.
#[derive(Debug, PartialEq, Eq)]
pub enum EncoderState {
    Starting,
    Running,
    Stopping,
    Stopped,
    Failed(String),
}

/// What is known of a live stream.
#[derive(Debug, PartialEq, Eq)]
pub struct StreamSession {
    pub session_id: SessionId,
    pub zone_id: ZoneId,
    pub codec: StreamCodec,
    pub generation: u64,
    pub local_url: String,
    pub encoder_state: EncoderState,
}

/// The playback offset of a zone.
#[derive(Debug, PartialEq, Eq)]
pub struct ZoneSyncConfig {
    pub zone_id: ZoneId,
    pub offset_ms: i64,
}

/// The sample format of an AirPlay session.
#[derive(Clone, Copy, Debug, PartialEq, Eq, Structural)]
pub struct PcmFormat {
    pub sample_rate: u32,
    pub channels: u8,
    pub bits: u8,
}

/// A piece of audio. Samples are the bit patterns of 32-bit floats, times are
/// nanoseconds on the service's clock.
#[derive(Debug, PartialEq, Eq)]
pub struct PcmFrame {
    pub sample_rate: u32,
    pub channels: u8,
    pub samples_f32_interleaved: Vec<u32>,
    pub presentation_time: Option<u64>,
}

/// An AirPlay session. The volume is the bit pattern of a 32-bit float.
#[derive(Debug, PartialEq, Eq)]
pub struct AirPlaySession {
    pub session_id: SessionId,
    pub zone_id: ZoneId,
    pub started_at: u64,
    pub volume: Option<u32>,
}

impl Clone for EncoderState {
    fn clone(&self) -> (r: Self)
        ensures
            r == *self,
    {
        match self {
            EncoderState::Starting => EncoderState::Starting,
            EncoderState::Running => EncoderState::Running,
            EncoderState::Stopping => EncoderState::Stopping,
            EncoderState::Stopped => EncoderState::Stopped,
            EncoderState::Failed(reason) => EncoderState::Failed(reason.clone()),
        }
    }
}

impl Clone for StreamSession {
    fn clone(&self) -> (r: Self)
        ensures
            r == *self,
    {
        StreamSession {
            session_id: self.session_id,
            zone_id: self.zone_id.clone(),
            codec: self.codec,
            generation: self.generation,
            local_url: self.local_url.clone(),
            encoder_state: self.encoder_state.clone(),
        }
    }
}

// ---------------------------------------------------------------------------
// Choosing rooms
// ---------------------------------------------------------------------------
/// Whether a room is named in a list of rooms, whatever the case of its letters.
pub open spec fn names_room(rooms: Seq<String>, room: Seq<char>) -> bool {
    exists|i: int|
        0 <= i < rooms.len() && text::ascii_lower((#[trigger] rooms[i])@) == text::ascii_lower(room)
}

/// Whether a zone is bridged: visible, named among the included rooms where
/// such are given, and not named among the excluded ones.
pub open spec fn zone_selected(zone: SonosZone, config: SonosConfig) -> bool {
    &&& zone.is_visible_room
    &&& config.include_rooms@.len() == 0 || names_room(config.include_rooms@, zone.room_name@)
    &&& !names_room(config.exclude_rooms@, zone.room_name@)
}

/// The names in lower case.
pub fn normalized_set(values: &[String]) -> (r: Vec<String>)
    ensures
        r@.len() == values@.len(),
        forall|i: int|
            0 <= i < r@.len() ==> (#[trigger] r@[i])@ == text::ascii_lower(values@[i]@),
{
    let mut r: Vec<String> = Vec::new();
    let mut i: usize = 0;
    while i < values.len()
        invariant
            i <= values@.len(),
            r@.len() == i,
            forall|j: int| 0 <= j < i ==> (#[trigger] r@[j])@ == text::ascii_lower(values@[j]@),
        decreases values@.len() - i,
    {
        r.push(text::lower_text(values[i].as_str()));
        i = i + 1;
    }
    r
}

/// Whether a text is among the given ones.
fn contains_text(values: &Vec<String>, wanted: &String) -> (r: bool)
    ensures
        r == exists|i: int| 0 <= i < values@.len() && (#[trigger] values@[i])@ == wanted@,
{
    let mut i: usize = 0;
    while i < values.len()
        invariant
            i <= values@.len(),
            forall|j: int| 0 <= j < i ==> (#[trigger] values@[j])@ != wanted@,
        decreases values@.len() - i,
    {
        if text::same_text(values[i].as_str(), wanted.as_str()) {
            return true;
        }
        i = i + 1;
    }
    false
}

/// The zones that are bridged, in their order.
pub fn filter_zones(zones: &[SonosZone], config: &SonosConfig) -> (r: Vec<SonosZone>)
    ensures
        r@ == zones@.filter(|zone: SonosZone| zone_selected(zone, *config)),
{
    let includes = normalized_set(config.include_rooms.as_slice());
    let excludes = normalized_set(config.exclude_rooms.as_slice());
    let ghost wanted = |zone: SonosZone| zone_selected(zone, *config);
    let mut r: Vec<SonosZone> = Vec::new();
    let mut i: usize = 0;
    assert(zones@.take(0).filter(wanted) =~= Seq::empty()) by {
        reveal(Seq::filter);
    }
    while i < zones.len()
        invariant
            i <= zones@.len(),
            wanted == (|zone: SonosZone| zone_selected(zone, *config)),
            r@ == zones@.take(i as int).filter(wanted),
            includes@.len() == config.include_rooms@.len(),
            excludes@.len() == config.exclude_rooms@.len(),
            forall|j: int|
                0 <= j < includes@.len() ==> (#[trigger] includes@[j])@ == text::ascii_lower(
                    config.include_rooms@[j]@,
                ),
            forall|j: int|
                0 <= j < excludes@.len() ==> (#[trigger] excludes@[j])@ == text::ascii_lower(
                    config.exclude_rooms@[j]@,
                ),
        decreases zones@.len() - i,
    {
        let zone = &zones[i];
        let room = text::lower_text(zone.room_name.as_str());
        let included = includes.len() == 0 || contains_text(&includes, &room);
        let excluded = contains_text(&excludes, &room);
        proof {
            assert(names_room(config.include_rooms@, zone.room_name@) == exists|j: int|
                0 <= j < includes@.len() && (#[trigger] includes@[j])@ == room@) by {
                if names_room(config.include_rooms@, zone.room_name@) {
                    let j = choose|j: int|
                        0 <= j < config.include_rooms@.len() && text::ascii_lower(
                            (#[trigger] config.include_rooms@[j])@,
                        ) == text::ascii_lower(zone.room_name@);
                    assert(includes@[j]@ == room@);
                }
            }
            assert(names_room(config.exclude_rooms@, zone.room_name@) == exists|j: int|
                0 <= j < excludes@.len() && (#[trigger] excludes@[j])@ == room@) by {
                if names_room(config.exclude_rooms@, zone.room_name@) {
                    let j = choose|j: int|
                        0 <= j < config.exclude_rooms@.len() && text::ascii_lower(
                            (#[trigger] config.exclude_rooms@[j])@,
                        ) == text::ascii_lower(zone.room_name@);
                    assert(excludes@[j]@ == room@);
                }
            }
            let next = zones@.take(i + 1);
            assert(next.drop_last() =~= zones@.take(i as int));
            assert(next.last() == zones@[i as int]);
            reveal(Seq::filter);
        }
        if zone.is_visible_room && included && !excluded {
            r.push(zone.clone());
        }
        i = i + 1;
    }
    assert(zones@.take(zones@.len() as int) =~= zones@);
    r
}

// ---------------------------------------------------------------------------
// Endpoints
// ---------------------------------------------------------------------------
/// The file in which a zone's pairings are kept.
pub open spec fn pairing_path(state_dir: Seq<char>, zone_id: Seq<char>) -> Seq<char> {
    paths::joined(paths::joined(state_dir, "pairings"@), zone_id + ".json"@)
}

/// The file in which a zone's pairings are kept.
pub fn pairing_store_path(state_dir: &str, zone_id: &str) -> (r: String)
    ensures
        r@ == pairing_path(state_dir@, zone_id@),
{
    let dir = paths::join_path(state_dir, "pairings");
    let mut file = zone_id.to_owned();
    file.append(".json");
    paths::join_path(dir.as_str(), file.as_str())
}

/// The file in which a zone's endpoint identity is kept.
pub fn endpoint_identity_path(state_dir: &str, zone_id: &str) -> (r: String)
    ensures
        r@ == paths::joined(paths::joined(state_dir@, "endpoints"@), zone_id@ + ".json"@),
{
    let dir = paths::join_path(state_dir, "endpoints");
    let mut file = zone_id.to_owned();
    file.append(".json");
    paths::join_path(dir.as_str(), file.as_str())
}

/// Whether an endpoint is the one of a zone at a position.
pub open spec fn endpoint_of(
    e: VirtualAirPlayEndpoint,
    zone: SonosZone,
    index: usize,
    airplay: AirPlayConfig,
    state_dir: Seq<char>,
) -> bool {
    &&& e.zone_id == zone.id
    &&& e.display_name@ == text::replace_all(
        airplay.name_template@,
        "{room}"@,
        zone.room_name@,
    )
    &&& ids::rtsp_port(airplay.base_rtsp_port, index) == Ok::<u16, PortAllocationError>(e.rtsp_port)
    &&& e.persisted_hwaddr@ == ids::hwaddr_of(
        ids::sha256_digest(vstd::utf8::encode_utf8(zone.id@)),
    )
    &&& e.pairing_store_path@ == pairing_path(state_dir, zone.id@)
}

/// The endpoint of a zone at a position: named after the template, on the port
/// for the position, with a hardware address and a pairing store of its own.
pub fn virtual_endpoint_for_zone(
    zone: &SonosZone,
    index: usize,
    airplay: &AirPlayConfig,
    state_dir: &str,
) -> (r: Result<VirtualAirPlayEndpoint, PortAllocationError>)
    ensures
        match r {
            Ok(e) => endpoint_of(e, *zone, index, *airplay, state_dir@),
            Err(error) => ids::rtsp_port(airplay.base_rtsp_port, index) == Err::<
                u16,
                PortAllocationError,
            >(error),
        },
{
    proof {
        reveal_strlit("{room}");
    }
    let display_name = text::replace_text(
        airplay.name_template.as_str(),
        "{room}",
        zone.room_name.as_str(),
    );
    let rtsp_port = match ids::allocate_rtsp_port(airplay.base_rtsp_port, index) {
        Ok(port) => port,
        Err(error) => return Err(error),
    };
    Ok(
        VirtualAirPlayEndpoint {
            zone_id: zone.id.clone(),
            display_name,
            rtsp_port,
            persisted_hwaddr: ids::stable_virtual_hwaddr(&zone.id),
            pairing_store_path: pairing_store_path(state_dir, zone.id.as_str()),
        },
    )
}

/// The endpoints of all zones, each at its position, or the first failure.
pub fn build_endpoints(
    zones: &[SonosZone],
    airplay: &AirPlayConfig,
    state_dir: &str,
) -> (r: Result<Vec<VirtualAirPlayEndpoint>, PortAllocationError>)
    ensures
        match r {
            Ok(es) => es@.len() == zones@.len() && forall|i: int|
                0 <= i < es@.len() ==> endpoint_of(
                    #[trigger] es@[i],
                    zones@[i],
                    i as usize,
                    *airplay,
                    state_dir@,
                ),
            Err(error) => exists|i: int|
                #![trigger zones@[i]]
                0 <= i < zones@.len() && ids::rtsp_port(airplay.base_rtsp_port, i as usize) == Err::<
                    u16,
                    PortAllocationError,
                >(error) && forall|j: usize|
                    j < i ==> (#[trigger] ids::rtsp_port(airplay.base_rtsp_port, j)) is Ok,
        },
{
    let mut es: Vec<VirtualAirPlayEndpoint> = Vec::new();
    let mut i: usize = 0;
    while i < zones.len()
        invariant
            i <= zones@.len(),
            es@.len() == i,
            forall|j: int|
                0 <= j < i ==> endpoint_of(
                    #[trigger] es@[j],
                    zones@[j],
                    j as usize,
                    *airplay,
                    state_dir@,
                ),
            forall|j: usize|
                j < i ==> (#[trigger] ids::rtsp_port(airplay.base_rtsp_port, j)) is Ok,
        decreases zones@.len() - i,
    {
        match virtual_endpoint_for_zone(&zones[i], i, airplay, state_dir) {
            Ok(e) => es.push(e),
            Err(error) => {
                assert(zones@[i as int] == zones@[i as int]);
                return Err(error);
            },
        }
        i = i + 1;
    }
    Ok(es)
}

// ---------------------------------------------------------------------------
// Laws
// ---------------------------------------------------------------------------
/// Whether two names are the same but for the case of their ASCII letters.
pub open spec fn same_but_for_case(a: Seq<char>, b: Seq<char>) -> bool {
    a.len() == b.len() && forall|i: int|
        0 <= i < a.len() ==> text::lower(#[trigger] a[i]) == text::lower(b[i])
}

proof fn lemma_same_but_for_case(a: Seq<char>, b: Seq<char>)
    ensures
        text::ascii_lower(a) == text::ascii_lower(b) <==> same_but_for_case(a, b),
{
    if text::ascii_lower(a) == text::ascii_lower(b) {
        assert(text::ascii_lower(a).len() == a.len());
        assert forall|i: int| 0 <= i < a.len() implies text::lower(#[trigger] a[i]) == text::lower(
            b[i],
        ) by {
            assert(text::ascii_lower(a)[i] == text::ascii_lower(b)[i]);
        }
    }
    if same_but_for_case(a, b) {
        assert(text::ascii_lower(a) =~= text::ascii_lower(b));
    }
}

/// A zone is bridged where its room is visible, it is named among the rooms to
/// bridge, if any are named, and it is not named among those left out, whatever
/// the case of the names. Nothing else is bridged.
pub proof fn bridged_zones_are_the_chosen_ones(
    zones: &[SonosZone],
    config: &SonosConfig,
    r: Vec<SonosZone>,
    zone: SonosZone,
)
    requires
        call_ensures(filter_zones, (zones, config), r),
    ensures
        ({
            let named = exists|k: int|
                0 <= k < config.include_rooms@.len() && same_but_for_case(
                    (#[trigger] config.include_rooms@[k])@,
                    zone.room_name@,
                );
            let left_out = exists|k: int|
                0 <= k < config.exclude_rooms@.len() && same_but_for_case(
                    (#[trigger] config.exclude_rooms@[k])@,
                    zone.room_name@,
                );
            &&& r@.contains(zone) <==> zones@.contains(zone) && zone.is_visible_room && (
            config.include_rooms@.len() == 0 || named) && !left_out
            &&& r@.len() <= zones@.len()
        }),
{
    let p = |zone: SonosZone| zone_selected(zone, *config);
    sequences::lemma_filter_keeps(zones@, p);
    assert forall|rooms: Seq<String>| #[trigger] names_room(rooms, zone.room_name@) <==> exists|k: int|
        0 <= k < rooms.len() && same_but_for_case((#[trigger] rooms[k])@, zone.room_name@) by {
        assert forall|k: int| 0 <= k < rooms.len() implies (text::ascii_lower(
            (#[trigger] rooms[k])@,
        ) == text::ascii_lower(zone.room_name@)) == same_but_for_case(
            rooms[k]@,
            zone.room_name@,
        ) by {
            lemma_same_but_for_case(rooms[k]@, zone.room_name@);
        }
        if names_room(rooms, zone.room_name@) {
            let k = choose|k: int|
                0 <= k < rooms.len() && text::ascii_lower((#[trigger] rooms[k])@)
                    == text::ascii_lower(zone.room_name@);
            assert(same_but_for_case(rooms[k]@, zone.room_name@));
        }
    }
}

/// The bridged zones keep their order.
pub proof fn bridged_zones_keep_their_order(
    zones: &[SonosZone],
    config: &SonosConfig,
    r: Vec<SonosZone>,
    i: int,
    j: int,
)
    requires
        call_ensures(filter_zones, (zones, config), r),
        0 <= i < j < r@.len(),
    ensures
        exists|a: int, b: int|
            0 <= a < b < zones@.len() && #[trigger] zones@[a] == r@[i] && #[trigger] zones@[b]
                == r@[j],
{
    let p = |zone: SonosZone| zone_selected(zone, *config);
    sequences::lemma_filter_order(zones@, p, i, j);
}

/// The endpoint of a zone is told from all others: it has the zone's identifier,
/// the port that many above the base, an address that begins with the byte of
/// local addresses and goes on with the digest of the identifier, and a pairing
/// file of its own below the directory of the pairings. It exists unless the
/// ports run out.
pub proof fn endpoints_stand_for_their_zones(
    zone: &SonosZone,
    index: usize,
    airplay: &AirPlayConfig,
    state_dir: &str,
    r: Result<VirtualAirPlayEndpoint, PortAllocationError>,
)
    requires
        call_ensures(virtual_endpoint_for_zone, (zone, index, airplay, state_dir), r),
    ensures
        r is Ok <==> airplay.base_rtsp_port + index <= 0xffff,
        r matches Ok(e) ==> {
            let digest = ids::sha256_digest(vstd::utf8::encode_utf8(zone.id@));
            &&& e.zone_id == zone.id
            &&& e.rtsp_port == airplay.base_rtsp_port + index
            &&& e.persisted_hwaddr@.len() == 6
            &&& e.persisted_hwaddr@[0] == 2
            &&& forall|k: int|
                1 <= k < 6 ==> #[trigger] e.persisted_hwaddr@[k] == digest[k - 1]
            &&& (zone.id@ + ".json"@).is_suffix_of(e.pairing_store_path@) || (zone.id@.len() > 0
                && zone.id@[0] == '/')
        },
        r matches Err(PortAllocationError::Overflow { base, index: i }) ==> base
            == airplay.base_rtsp_port && i == index,
{
    reveal_strlit(".json");
    reveal_strlit("pairings");
    if let Ok(e) = r {
        let dir = paths::joined(state_dir@, "pairings"@);
        let file = zone.id@ + ".json"@;
        if !(zone.id@.len() > 0 && zone.id@[0] == '/') {
            let path = e.pairing_store_path@;
            assert(!(file.len() > 0 && file[0] == '/')) by {
                if zone.id@.len() > 0 {
                    assert(file[0] == zone.id@[0]);
                } else {
                    assert(file[0] == ".json"@[0]);
                }
            }
            assert(path.skip(path.len() - file.len()) =~= file);
        }
    }
}

/// The name of an endpoint is the template with the name of the room in the place
/// of its mark; a template without a mark is the name.
pub proof fn endpoints_are_named_after_their_rooms(
    zone: &SonosZone,
    index: usize,
    airplay: &AirPlayConfig,
    state_dir: &str,
    e: VirtualAirPlayEndpoint,
    before: Seq<char>,
    after: Seq<char>,
)
    requires
        call_ensures(
            virtual_endpoint_for_zone,
            (zone, index, airplay, state_dir),
            Ok::<VirtualAirPlayEndpoint, PortAllocationError>(e),
        ),
        !before.contains('{'),
        !after.contains('{'),
    ensures
        airplay.name_template@ == before + "{room}"@ + after ==> e.display_name@ == before
            + zone.room_name@ + after,
        airplay.name_template@ == before ==> e.display_name@ == before,
{
    reveal_strlit("{room}");
    let mark = "{room}"@;
    lemma_no_mark(before);
    lemma_no_mark(after);
    text::replacing_goes_from_place_to_place(before, mark, after, zone.room_name@);
    text::replacing_goes_from_place_to_place(after, mark, after, zone.room_name@);
    let whole = before + mark + after;
    assert forall|j: int| 0 <= j < before.len() implies #[trigger] whole.subrange(
        j,
        j + mark.len(),
    ) != mark by {
        assert(whole.subrange(j, j + mark.len())[0] == before[j]);
        assert(mark[0] == '{');
        assert(before.contains(before[j]));
    }
}

proof fn lemma_no_mark(s: Seq<char>)
    requires
        !s.contains('{'),
    ensures
        forall|j: int|
            0 <= j && j + "{room}"@.len() <= s.len() ==> #[trigger] s.subrange(
                j,
                j + "{room}"@.len(),
            ) != "{room}"@,
{
    reveal_strlit("{room}");
    assert forall|j: int| 0 <= j && j + "{room}"@.len() <= s.len() implies #[trigger] s.subrange(
        j,
        j + "{room}"@.len(),
    ) != "{room}"@ by {
        assert(s.subrange(j, j + "{room}"@.len())[0] == s[j]);
        assert(s.contains(s[j]));
    }
}

/// Zones get endpoints in their order, each with a port of its own, as long as
/// there are ports; where they run out there are no endpoints at all.
pub proof fn every_zone_has_a_port_of_its_own(
    zones: &[SonosZone],
    airplay: &AirPlayConfig,
    state_dir: &str,
    r: Result<Vec<VirtualAirPlayEndpoint>, PortAllocationError>,
    i: int,
    j: int,
)
    requires
        call_ensures(build_endpoints, (zones, airplay, state_dir), r),
        0 <= i < j < zones@.len() <= usize::MAX,
    ensures
        r matches Ok(es) ==> {
            &&& es@.len() == zones@.len()
            &&& es@[i].zone_id == zones@[i].id
            &&& es@[j].rtsp_port - es@[i].rtsp_port == j - i
            &&& es@[0].rtsp_port == airplay.base_rtsp_port
        },
        r is Ok <==> airplay.base_rtsp_port + zones@.len() - 1 <= 0xffff,
{
    let last = (zones@.len() - 1) as usize;
    match r {
        Ok(es) => {
            assert(endpoint_of(es@[i], zones@[i], i as usize, *airplay, state_dir@));
            assert(endpoint_of(es@[j], zones@[j], j as usize, *airplay, state_dir@));
            assert(endpoint_of(es@[0], zones@[0], 0, *airplay, state_dir@));
            assert(endpoint_of(
                es@[last as int],
                zones@[last as int],
                last,
                *airplay,
                state_dir@,
            ));
        },
        Err(error) => {},
    }
}

/// What is kept of a zone stands in files of its own, below two directories that
/// tell apart what they hold.
pub proof fn zones_have_files_of_their_own(
    state_dir: &str,
    zone_id: &str,
    pairing: String,
    identity: String,
)
    requires
        call_ensures(pairing_store_path, (state_dir, zone_id), pairing),
        call_ensures(endpoint_identity_path, (state_dir, zone_id), identity),
        state_dir@.len() > 0,
        state_dir@.last() != '/',
        zone_id@.len() > 0,
        zone_id@[0] != '/',
    ensures
        pairing@ == state_dir@ + "/pairings/"@ + zone_id@ + ".json"@,
        identity@ == state_dir@ + "/endpoints/"@ + zone_id@ + ".json"@,
{
    reveal_strlit("pairings");
    reveal_strlit("endpoints");
    reveal_strlit("/pairings/");
    reveal_strlit("/endpoints/");
    reveal_strlit(".json");
    let file = zone_id@ + ".json"@;
    assert(file[0] == zone_id@[0]);
    let a = paths::joined(state_dir@, "pairings"@);
    assert(a =~= state_dir@ + seq!['/'] + "pairings"@);
    assert(a.last() == "pairings"@.last());
    assert(pairing@ =~= state_dir@ + "/pairings/"@ + zone_id@ + ".json"@);
    let b = paths::joined(state_dir@, "endpoints"@);
    assert(b =~= state_dir@ + seq!['/'] + "endpoints"@);
    assert(b.last() == "endpoints"@.last());
    assert(identity@ =~= state_dir@ + "/endpoints/"@ + zone_id@ + ".json"@);
}

/// Names are compared in lower case, each for itself.
pub proof fn names_are_lowered_one_by_one(values: &[String], r: Vec<String>, i: int, k: int)
    requires
        call_ensures(normalized_set, (values,), r),
        0 <= i < values@.len(),
        0 <= k < values@[i]@.len(),
    ensures
        r@.len() == values@.len(),
        r@[i]@.len() == values@[i]@.len(),
        'A' <= values@[i]@[k] && values@[i]@[k] <= 'Z' ==> r@[i]@[k] as u32 == values@[i]@[k] as u32
            + 32,
        !('A' <= values@[i]@[k] && values@[i]@[k] <= 'Z') ==> r@[i]@[k] == values@[i]@[k],
{
    assert(r@[i]@ == text::ascii_lower(values@[i]@));
}

} // verus!
