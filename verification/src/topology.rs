//! The topology of a household: which rooms are grouped, and which are visible.

use quick_xml::events::Event;
use quick_xml::Reader;
use vstd::prelude::*;

use crate::text;

verus! {

/// A room in the topology of a household.
#[derive(Debug, PartialEq, Eq)]
pub struct ZoneGroupMember {
    pub uuid: String,
    pub zone_name: String,
    pub location: Option<String>,
    pub is_visible_room: bool,
    pub is_group_coordinator: bool,
}

/// An optional string by its contents.
pub open spec fn optional_text(s: Option<String>) -> Option<Seq<char>> {
    match s {
        Some(s) => Some(s@),
        None => None,
    }
}

/// A room in the topology, by its contents.
pub struct MemberState {
    pub uuid: Seq<char>,
    pub zone_name: Seq<char>,
    pub location: Option<Seq<char>>,
    pub is_visible_room: bool,
    pub is_group_coordinator: bool,
}

impl View for ZoneGroupMember {
    type V = MemberState;

    open spec fn view(&self) -> MemberState {
        MemberState {
            uuid: self.uuid@,
            zone_name: self.zone_name@,
            location: optional_text(self.location),
            is_visible_room: self.is_visible_room,
            is_group_coordinator: self.is_group_coordinator,
        }
    }
}

/// The rooms by their contents.
pub open spec fn member_states(members: Seq<ZoneGroupMember>) -> Seq<MemberState> {
    members.map_values(|m: ZoneGroupMember| m@)
}

// ---------------------------------------------------------------------------
// Reading XML
// ---------------------------------------------------------------------------
/// An attribute: its name and its value, or nothing where it is malformed.
pub type XmlAttribute = Option<(Vec<u8>, Vec<u8>)>;

/// What a piece of XML is.
#[derive(Debug)]
pub enum XmlEvent {
    /// The start of an element, or an empty element.
    Element { name: Vec<u8>, attributes: Vec<XmlAttribute> },
    /// Anything else.
    Other,
    /// The end, or what is malformed.
    End,
}

/// What a piece of XML is, by its contents.
pub enum EventState {
    Element { name: Seq<u8>, attributes: Seq<Option<(Seq<u8>, Seq<u8>)>> },
    Other,
    End,
}

/// An attribute by its contents.
pub open spec fn attribute_state(a: XmlAttribute) -> Option<(Seq<u8>, Seq<u8>)> {
    match a {
        Some((key, value)) => Some((key@, value@)),
        None => None,
    }
}

impl View for XmlEvent {
    type V = EventState;

    open spec fn view(&self) -> EventState {
        match self {
            XmlEvent::Element { name, attributes } => EventState::Element {
                name: name@,
                attributes: attributes@.map_values(|a: XmlAttribute| attribute_state(a)),
            },
            XmlEvent::Other => EventState::Other,
            XmlEvent::End => EventState::End,
        }
    }
}

/// The events by their contents.
pub open spec fn event_states(events: Seq<XmlEvent>) -> Seq<EventState> {
    events.map_values(|e: XmlEvent| e@)
}

#[verifier::external_type_specification]
#[verifier::external_body]
#[verifier::reject_recursive_types(R)]
pub struct ExReader<R>(Reader<R>);

/// What `Reader::read_event` gives for a text, with white space around text
/// trimmed, up to the end or the first failure.
pub uninterp spec fn xml_events(xml: Seq<char>) -> Seq<EventState>;

/// What a reader has still to give, up to the end or the first failure.
pub uninterp spec fn events_left(reader: Reader<&[u8]>) -> Seq<EventState>;

/// `Reader::from_str`, with `trim_text` set: all of the text's events are still
/// to be given.
#[verifier::external_body]
fn open_xml(xml: &str) -> (r: Reader<&[u8]>)
    ensures
        events_left(r) == xml_events(xml@),
        events_left(r).len() > 0,
{
    let mut reader = Reader::from_str(xml);
    reader.config_mut().trim_text(true);
    reader
}

/// `Reader::read_event`: the next event. The last one is the end, or a failure,
/// and no other one is. Of an element, `BytesStart::name` and
/// `BytesStart::attributes` give the name and the attributes.
#[verifier::external_body]
fn next_event<'a>(reader: &mut Reader<&'a [u8]>) -> (r: XmlEvent)
    requires
        events_left(*old(reader)).len() > 0,
    ensures
        r@ == events_left(*old(reader))[0],
        events_left(*final(reader)) == events_left(*old(reader)).skip(1),
        r is End <==> events_left(*old(reader)).len() == 1,
{
    match reader.read_event() {
        Ok(Event::Start(element)) | Ok(Event::Empty(element)) => XmlEvent::Element {
            name: element.name().as_ref().to_vec(),
            attributes: element.attributes().map(|a| a.ok().map(|a| (
                a.key.as_ref().to_vec(),
                a.value.to_vec(),
            ))).collect(),
        },
        Ok(Event::Eof) | Err(_) => XmlEvent::End,
        Ok(_) => XmlEvent::Other,
    }
}

/// The events of a text.
pub fn read_events(xml: &str) -> (r: Vec<XmlEvent>)
    ensures
        event_states(r@) == xml_events(xml@),
{
    let mut reader = open_xml(xml);
    let ghost all = xml_events(xml@);
    let mut r: Vec<XmlEvent> = Vec::new();
    assert(all.skip(0) =~= all);
    assert(event_states(r@) =~= all.take(0));
    loop
        invariant_except_break
            r@.len() < all.len(),
        invariant
            all == xml_events(xml@),
            events_left(reader) == all.skip(r@.len() as int),
            event_states(r@) == all.take(r@.len() as int),
        ensures
            event_states(r@) == all,
        decreases events_left(reader).len(),
    {
        let ghost n = r@.len() as int;
        let event = next_event(&mut reader);
        let over: bool = match &event {
            XmlEvent::End => true,
            _ => false,
        };
        let ghost e = event;
        let ghost before = r@;
        r.push(event);
        proof {
            assert(e@ == all[n]);
            assert(event_states(r@) =~= event_states(before).push(e@));
            assert(all.take(n + 1) =~= all.take(n).push(all[n]));
            assert(all.skip(n).skip(1) =~= all.skip(n + 1));
        }
        if over {
            assert(all.take(n + 1) =~= all);
            break;
        }
    }
    r
}

// ---------------------------------------------------------------------------
// Rooms
// ---------------------------------------------------------------------------
/// The text of the first attribute with a name.
pub open spec fn attribute(
    attributes: Seq<Option<(Seq<u8>, Seq<u8>)>>,
    key: Seq<u8>,
) -> Option<Seq<char>>
    decreases attributes.len(),
{
    if attributes.len() == 0 {
        None
    } else {
        match attributes[0] {
            Some((k, v)) => if k == key {
                Some(text::lossy_text(v))
            } else {
                attribute(attributes.skip(1), key)
            },
            None => attribute(attributes.skip(1), key),
        }
    }
}

/// A text, or an empty one.
pub open spec fn or_empty(s: Option<Seq<char>>) -> Seq<char> {
    match s {
        Some(s) => s,
        None => Seq::empty(),
    }
}

/// The bytes of a name in XML.
pub open spec fn ascii(s: Seq<char>) -> Seq<u8> {
    s.map_values(|c: char| c as u8)
}

/// The room that an element describes, in a group with a coordinator. It is
/// invisible where it says so, and the coordinator where the group says so.
pub open spec fn member_of(
    attributes: Seq<Option<(Seq<u8>, Seq<u8>)>>,
    coordinator: Option<Seq<char>>,
) -> MemberState {
    let uuid = or_empty(attribute(attributes, ascii("UUID"@)));
    MemberState {
        uuid,
        zone_name: or_empty(attribute(attributes, ascii("ZoneName"@))),
        location: attribute(attributes, ascii("Location"@)),
        is_visible_room: or_empty(attribute(attributes, ascii("Invisible"@))) != "1"@,
        is_group_coordinator: coordinator == Some(uuid),
    }
}

/// The rooms that events describe, after a group with a coordinator.
pub open spec fn members_in(events: Seq<EventState>, coordinator: Option<Seq<char>>) -> Seq<
    MemberState,
>
    decreases events.len(),
{
    if events.len() == 0 {
        Seq::empty()
    } else {
        match events[0] {
            EventState::Element { name, attributes } => if name == ascii("ZoneGroup"@) {
                members_in(events.skip(1), attribute(attributes, ascii("Coordinator"@)))
            } else if name == ascii("ZoneGroupMember"@) {
                seq![member_of(attributes, coordinator)] + members_in(events.skip(1), coordinator)
            } else {
                members_in(events.skip(1), coordinator)
            },
            EventState::Other => members_in(events.skip(1), coordinator),
            EventState::End => Seq::empty(),
        }
    }
}

/// Whether bytes are the ASCII of a text.
fn is_ascii_of(bytes: &Vec<u8>, name: &str) -> (r: bool)
    requires
        forall|i: int| 0 <= i < name@.len() ==> #[trigger] name@[i] < '\u{80}',
    ensures
        r == (bytes@ == ascii(name@)),
{
    let chars = text::to_chars(name);
    if bytes.len() != chars.len() {
        return false;
    }
    let mut i: usize = 0;
    while i < bytes.len()
        invariant
            i <= bytes@.len(),
            bytes@.len() == chars@.len(),
            chars@ == name@,
            forall|j: int| 0 <= j < name@.len() ==> #[trigger] name@[j] < '\u{80}',
            forall|j: int| 0 <= j < i ==> bytes@[j] == ascii(name@)[j],
        decreases bytes@.len() - i,
    {
        let c: char = chars[i];
        assert(name@[i as int] < '\u{80}');
        if bytes[i] != c as u8 {
            assert(bytes@[i as int] != ascii(name@)[i as int]);
            return false;
        }
        i = i + 1;
    }
    assert(bytes@ =~= ascii(name@));
    true
}

/// The text of the first attribute with a name.
fn attr(attributes: &Vec<XmlAttribute>, key: &str) -> (r: Option<String>)
    requires
        forall|i: int| 0 <= i < key@.len() ==> #[trigger] key@[i] < '\u{80}',
    ensures
        match r {
            Some(s) => attribute(
                attributes@.map_values(|a: XmlAttribute| attribute_state(a)),
                ascii(key@),
            ) == Some(s@),
            None => attribute(
                attributes@.map_values(|a: XmlAttribute| attribute_state(a)),
                ascii(key@),
            ) is None,
        },
{
    let ghost all = attributes@.map_values(|a: XmlAttribute| attribute_state(a));
    let mut i: usize = 0;
    assert(all.skip(0) =~= all);
    while i < attributes.len()
        invariant
            i <= attributes@.len(),
            all == attributes@.map_values(|a: XmlAttribute| attribute_state(a)),
            forall|j: int| 0 <= j < key@.len() ==> #[trigger] key@[j] < '\u{80}',
            attribute(all, ascii(key@)) == attribute(all.skip(i as int), ascii(key@)),
        decreases attributes@.len() - i,
    {
        proof {
            assert(all.skip(i as int)[0] == attribute_state(attributes@[i as int]));
            assert(all.skip(i as int).skip(1) =~= all.skip(i + 1));
        }
        if let Some(pair) = &attributes[i] {
            if is_ascii_of(&pair.0, key) {
                return Some(text::read_lossy(pair.1.as_slice()));
            }
        }
        i = i + 1;
    }
    None
}

fn text_or_empty(s: Option<String>) -> (r: String)
    ensures
        r@ == or_empty(optional_text(s)),
{
    match s {
        Some(s) => s,
        None => String::new(),
    }
}

/// The rooms that the events of a topology describe, in their order.
pub fn members_of(events: &Vec<XmlEvent>) -> (r: Vec<ZoneGroupMember>)
    ensures
        member_states(r@) == members_in(event_states(events@), None),
{
    let ghost all = event_states(events@);
    let mut r: Vec<ZoneGroupMember> = Vec::new();
    let mut coordinator: Option<String> = None;
    let ghost mut coordinator_text: Option<Seq<char>> = None;
    let mut i: usize = 0;
    proof {
        reveal_strlit("ZoneGroup");
        reveal_strlit("ZoneGroupMember");
        reveal_strlit("Coordinator");
        reveal_strlit("UUID");
        reveal_strlit("ZoneName");
        reveal_strlit("Location");
        reveal_strlit("Invisible");
        assert(all.skip(0) =~= all);
        assert(member_states(r@) + members_in(all, None) =~= members_in(all, None));
    }
    #[verifier::loop_isolation(false)]
    while i < events.len()
        invariant
            i <= events@.len(),
            all == event_states(events@),
            coordinator_text == optional_text(coordinator),
            members_in(all, None) == member_states(r@) + members_in(
                all.skip(i as int),
                coordinator_text,
            ),
        decreases events@.len() - i,
    {
        let event = &events[i];
        let ghost before = r@;
        proof {
            assert(all.skip(i as int)[0] == event@);
            assert(all.skip(i as int).skip(1) =~= all.skip(i + 1));
        }
        match event {
            XmlEvent::Element { name, attributes } => {
                let ghost contents = attributes@.map_values(
                    |a: XmlAttribute| attribute_state(a),
                );
                if is_ascii_of(name, "ZoneGroup") {
                    coordinator = attr(attributes, "Coordinator");
                    proof {
                        coordinator_text = optional_text(coordinator);
                    }
                } else if is_ascii_of(name, "ZoneGroupMember") {
                    let uuid = text_or_empty(attr(attributes, "UUID"));
                    let zone_name = text_or_empty(attr(attributes, "ZoneName"));
                    let location = attr(attributes, "Location");
                    let invisible_text = text_or_empty(attr(attributes, "Invisible"));
                    let invisible: bool = text::same_text(invisible_text.as_str(), "1");
                    let is_group_coordinator: bool = match &coordinator {
                        Some(c) => text::same_text(c.as_str(), uuid.as_str()),
                        None => false,
                    };
                    let member = ZoneGroupMember {
                        uuid,
                        zone_name,
                        location,
                        is_visible_room: !invisible,
                        is_group_coordinator,
                    };
                    let ghost m = member;
                    assert(m@ == member_of(contents, coordinator_text));
                    r.push(member);
                    proof {
                        let rest = members_in(all.skip(i + 1), coordinator_text);
                        assert(member_states(r@) =~= member_states(before).push(m@));
                        assert(member_states(before) + (seq![m@] + rest) =~= member_states(r@)
                            + rest);
                    }
                }
            },
            XmlEvent::Other => {},
            XmlEvent::End => {
                assert(member_states(r@) + Seq::<MemberState>::empty() =~= member_states(r@));
                return r;
            },
        }
        i = i + 1;
    }
    proof {
        assert(all.skip(i as int) =~= Seq::empty());
        assert(member_states(r@) + Seq::<MemberState>::empty() =~= member_states(r@));
    }
    r
}

/// The rooms that a topology describes, in their order.
pub fn parse_zone_group_state(xml: &str) -> (r: Vec<ZoneGroupMember>)
    ensures
        member_states(r@) == members_in(xml_events(xml@), None),
{
    let events = read_events(xml);
    members_of(&events)
}

// ---------------------------------------------------------------------------
// Laws
// ---------------------------------------------------------------------------
/// Whether an event is an element with a name.
pub open spec fn is_element(event: EventState, name: Seq<char>) -> bool {
    event matches EventState::Element { name: n, .. } && n == ascii(name)
}

/// The attributes of an element.
pub open spec fn attributes_of(event: EventState) -> Seq<Option<(Seq<u8>, Seq<u8>)>> {
    match event {
        EventState::Element { attributes, .. } => attributes,
        _ => Seq::empty(),
    }
}

/// The number of rooms among the first events.
pub open spec fn rooms_before(events: Seq<EventState>, n: int) -> nat
    decreases n,
{
    if n <= 0 {
        0
    } else {
        rooms_before(events, n - 1) + if is_element(events[n - 1], "ZoneGroupMember"@) {
            1nat
        } else {
            0
        }
    }
}

proof fn lemma_element_names()
    ensures
        ascii("ZoneGroup"@) != ascii("ZoneGroupMember"@),
{
    reveal_strlit("ZoneGroup");
    reveal_strlit("ZoneGroupMember");
    assert(ascii("ZoneGroup"@).len() == 9);
    assert(ascii("ZoneGroupMember"@).len() == 15);
}

proof fn lemma_rooms_before_skip(events: Seq<EventState>, n: int)
    requires
        0 < n <= events.len(),
    ensures
        rooms_before(events, n) == rooms_before(events.skip(1), n - 1) + if is_element(
            events[0],
            "ZoneGroupMember"@,
        ) {
            1nat
        } else {
            0
        },
    decreases n,
{
    reveal_with_fuel(rooms_before, 2);
    if n > 1 {
        lemma_rooms_before_skip(events, n - 1);
        assert(events.skip(1)[n - 2] == events[n - 1]);
    }
}

proof fn lemma_room_at(
    events: Seq<EventState>,
    coordinator: Option<Seq<char>>,
    group: int,
    i: int,
)
    requires
        -1 <= group < i < events.len(),
        forall|k: int| 0 <= k < i ==> !(#[trigger] events[k] is End),
        group >= 0 ==> is_element(events[group], "ZoneGroup"@),
        forall|k: int| group < k < i ==> !is_element(#[trigger] events[k], "ZoneGroup"@),
        is_element(events[i], "ZoneGroupMember"@),
    ensures
        ({
            let at = rooms_before(events, i);
            let leader = if group >= 0 {
                attribute(attributes_of(events[group]), ascii("Coordinator"@))
            } else {
                coordinator
            };
            &&& at < members_in(events, coordinator).len()
            &&& members_in(events, coordinator)[at as int] == member_of(
                attributes_of(events[i]),
                leader,
            )
        }),
    decreases events.len(),
{
    lemma_element_names();
    let rest = events.skip(1);
    if i == 0 {
        assert(members_in(events, coordinator) =~= seq![
            member_of(attributes_of(events[0]), coordinator),
        ] + members_in(rest, coordinator));
    } else {
        lemma_rooms_before_skip(events, i);
        assert(!(events[0] is End));
        assert forall|k: int| 0 <= k < rest.len() implies rest[k] == events[k + 1] by {}
        let next = if is_element(events[0], "ZoneGroup"@) {
            attribute(attributes_of(events[0]), ascii("Coordinator"@))
        } else {
            coordinator
        };
        let g = if group > 0 {
            group - 1
        } else {
            -1
        };
        assert forall|k: int| 0 <= k < i - 1 implies !(#[trigger] rest[k] is End) by {
            assert(!(events[k + 1] is End));
        }
        assert forall|k: int| g < k < i - 1 implies !is_element(
            #[trigger] rest[k],
            "ZoneGroup"@,
        ) by {
            assert(!is_element(events[k + 1], "ZoneGroup"@));
        }
        if group == -1 {
            assert(!is_element(events[0], "ZoneGroup"@));
        }
        lemma_room_at(rest, next, g, i - 1);
    }
}

proof fn lemma_room_count(events: Seq<EventState>, coordinator: Option<Seq<char>>, n: int)
    requires
        0 <= n <= events.len(),
        forall|k: int| 0 <= k < n ==> !(#[trigger] events[k] is End),
        n == events.len() || events[n] is End,
    ensures
        members_in(events, coordinator).len() == rooms_before(events, n),
    decreases events.len(),
{
    lemma_element_names();
    if n > 0 {
        let rest = events.skip(1);
        lemma_rooms_before_skip(events, n);
        assert(!(events[0] is End));
        assert forall|k: int| 0 <= k < n - 1 implies !(#[trigger] rest[k] is End) by {
            assert(!(events[k + 1] is End));
        }
        if n < events.len() {
            assert(rest[n - 1] == events[n]);
        }
        let next = if is_element(events[0], "ZoneGroup"@) {
            attribute(attributes_of(events[0]), ascii("Coordinator"@))
        } else {
            coordinator
        };
        lemma_room_count(rest, next, n - 1);
    }
}

/// Every room of a topology is listed at its place, with what its own element
/// says of it. It leads its group where the last group before it names it as
/// the coordinator, and not where no group stands before it. `group` is the
/// position of that last group, or -1.
pub proof fn every_room_is_listed_with_its_group(
    events: Seq<EventState>,
    group: int,
    i: int,
)
    requires
        -1 <= group < i < events.len(),
        forall|k: int| 0 <= k < i ==> !(#[trigger] events[k] is End),
        group >= 0 ==> is_element(events[group], "ZoneGroup"@),
        forall|k: int| group < k < i ==> !is_element(#[trigger] events[k], "ZoneGroup"@),
        is_element(events[i], "ZoneGroupMember"@),
    ensures
        ({
            let rooms = members_in(events, None);
            let room = rooms[rooms_before(events, i) as int];
            let own = attributes_of(events[i]);
            &&& rooms_before(events, i) < rooms.len()
            &&& room.is_group_coordinator <==> group >= 0 && attribute(
                attributes_of(events[group]),
                ascii("Coordinator"@),
            ) == Some(room.uuid)
            &&& attribute(own, ascii("UUID"@)) matches Some(uuid) ==> room.uuid == uuid
            &&& attribute(own, ascii("UUID"@)) is None ==> room.uuid.len() == 0
            &&& attribute(own, ascii("ZoneName"@)) matches Some(name) ==> room.zone_name == name
            &&& attribute(own, ascii("ZoneName"@)) is None ==> room.zone_name.len() == 0
            &&& room.location == attribute(own, ascii("Location"@))
            &&& !room.is_visible_room <==> attribute(own, ascii("Invisible"@)) == Some("1"@)
        }),
{
    lemma_room_at(events, None, group, i);
    reveal_strlit("1");
    assert("1"@.len() == 1);
    assert(Seq::<char>::empty().len() == 0);
    let own = attributes_of(events[i]);
    let leader = if group >= 0 {
        attribute(attributes_of(events[group]), ascii("Coordinator"@))
    } else {
        None
    };
    assert(members_in(events, None)[rooms_before(events, i) as int] == member_of(own, leader));
}

/// A topology lists as many rooms as it has room elements before its end.
pub proof fn no_other_rooms_are_listed(events: Seq<EventState>, n: int)
    requires
        0 <= n <= events.len(),
        forall|k: int| 0 <= k < n ==> !(#[trigger] events[k] is End),
        n == events.len() || events[n] is End,
    ensures
        members_in(events, None).len() == rooms_before(events, n),
{
    lemma_room_count(events, None, n);
}

/// The value of an attribute is the text of the first one with its name;
/// malformed ones count for nothing.
pub proof fn the_first_attribute_counts(
    attributes: Seq<Option<(Seq<u8>, Seq<u8>)>>,
    key: Seq<u8>,
    i: int,
)
    requires
        0 <= i <= attributes.len(),
        forall|k: int|
            0 <= k < i ==> (#[trigger] attributes[k] matches Some((name, _)) ==> name != key),
        i == attributes.len() || (attributes[i] matches Some((name, _)) && name == key),
    ensures
        i == attributes.len() ==> attribute(attributes, key) is None,
        i < attributes.len() ==> (attributes[i] matches Some((_, value)) && attribute(
            attributes,
            key,
        ) == Some(text::lossy_text(value))),
    decreases attributes.len(),
{
    if i > 0 {
        let rest = attributes.skip(1);
        assert forall|k: int| 0 <= k < i - 1 implies (#[trigger] rest[k] matches Some((name, _))
            ==> name != key) by {
            assert(rest[k] == attributes[k + 1]);
        }
        if i < attributes.len() {
            assert(rest[i - 1] == attributes[i]);
        }
        assert(attributes[0] matches Some((name, _)) ==> name != key);
        the_first_attribute_counts(rest, key, i - 1);
    }
}

// ---------------------------------------------------------------------------
// What callers see
// ---------------------------------------------------------------------------
/// The rooms that a caller gets stand each at its place, and lead their groups as
/// the last group before each of them says.
pub proof fn callers_get_every_room_with_its_group(
    events: &Vec<XmlEvent>,
    rooms: Vec<ZoneGroupMember>,
    group: int,
    i: int,
)
    requires
        call_ensures(members_of, (events,), rooms),
        -1 <= group < i < events@.len(),
        forall|k: int| 0 <= k < i ==> !((#[trigger] events@[k])@ is End),
        group >= 0 ==> is_element(events@[group]@, "ZoneGroup"@),
        forall|k: int| group < k < i ==> !is_element((#[trigger] events@[k])@, "ZoneGroup"@),
        is_element(events@[i]@, "ZoneGroupMember"@),
    ensures
        ({
            let at = rooms_before(event_states(events@), i) as int;
            let room = rooms@[at];
            &&& 0 <= at < rooms@.len()
            &&& room.is_group_coordinator <==> group >= 0 && attribute(
                attributes_of(events@[group]@),
                ascii("Coordinator"@),
            ) == Some(room.uuid@)
            &&& attribute(attributes_of(events@[i]@), ascii("UUID"@)) matches Some(uuid)
                ==> room.uuid@ == uuid
            &&& attribute(attributes_of(events@[i]@), ascii("ZoneName"@)) matches Some(name)
                ==> room.zone_name@ == name
            &&& !room.is_visible_room <==> attribute(
                attributes_of(events@[i]@),
                ascii("Invisible"@),
            ) == Some("1"@)
        }),
{
    let states = event_states(events@);
    assert forall|k: int| 0 <= k < states.len() implies #[trigger] states[k] == events@[k]@ by {}
    assert forall|k: int| 0 <= k < i implies !(#[trigger] states[k] is End) by {
        assert(states[k] == events@[k]@);
    }
    assert forall|k: int| group < k < i implies !is_element(#[trigger] states[k], "ZoneGroup"@) by {
        assert(states[k] == events@[k]@);
    }
    every_room_is_listed_with_its_group(states, group, i);
    let at = rooms_before(states, i) as int;
    assert(member_states(rooms@)[at] == rooms@[at]@);
}

/// Parsing a topology lists the rooms of the events it is read as.
pub proof fn parsing_lists_the_rooms_of_the_events(
    xml: &str,
    parsed: Vec<ZoneGroupMember>,
    events: Vec<XmlEvent>,
    listed: Vec<ZoneGroupMember>,
)
    requires
        call_ensures(parse_zone_group_state, (xml,), parsed),
        call_ensures(read_events, (xml,), events),
        call_ensures(members_of, (&events,), listed),
    ensures
        member_states(parsed@) == member_states(listed@),
{
}

/// The names of elements and attributes are compared byte by byte with the
/// characters of the name.
pub proof fn names_are_compared_byte_by_byte(name: Seq<char>, i: int)
    requires
        0 <= i < name.len(),
        (name[i] as int) < 0x80,
    ensures
        ascii(name).len() == name.len(),
        ascii(name)[i] == name[i] as int,
{
    lemma_byte_of(name[i]);
    assert(ascii(name)[i] == name[i] as u8);
}

proof fn lemma_byte_of(c: char)
    requires
        (c as int) < 0x80,
    ensures
        c as u8 == c as int,
{
}

} // verus!
