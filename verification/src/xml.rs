//! What a player says of itself.

use vstd::prelude::*;
use vstd::string::StringExecFns;

use crate::net;
use crate::net::IpAddr;
use crate::text;
use crate::web;
use crate::web::parse_url;

verus! {

/// The description of a player.
#[derive(Debug, PartialEq, Eq)]
pub struct DeviceDescription {
    pub room_name: String,
    pub model_name: String,
    pub udn: String,
    pub base_url: String,
}

/// The fields of a device in a description, as far as they are given.
#[derive(Debug, PartialEq, Eq)]
pub struct DeviceFields {
    pub friendly_name: Option<String>,
    pub room_name: Option<String>,
    pub model_name: Option<String>,
    pub udn: Option<String>,
}

/// Why a description is no use.
#[derive(Debug)]
pub enum DeviceDescriptionError {
    MissingDevice,
    MissingField(&'static str),
    /// The description is malformed, in the reader's words.
    Parse(String),
    Url(url::ParseError),
}

/// A text without the prefix, however often it is there.
pub open spec fn without_prefix(s: Seq<char>, prefix: Seq<char>) -> Seq<char>
    decreases s.len(),
{
    if prefix.len() > 0 && text::starts_with(s, prefix) {
        without_prefix(s.skip(prefix.len() as int), prefix)
    } else {
        s
    }
}

impl DeviceDescription {
    /// The identifier of the player.
    pub fn rincon_id(&self) -> (r: String)
        ensures
            r@ == without_prefix(self.udn@, "uuid:"@),
    {
        let chars = text::to_chars(self.udn.as_str());
        let prefix = text::to_chars("uuid:");
        proof {
            reveal_strlit("uuid:");
            assert(chars@.skip(0) =~= chars@);
        }
        let mut from: usize = 0;
        while text::matches_at(&chars, &prefix, from)
            invariant
                from <= chars@.len(),
                prefix@ == "uuid:"@,
                prefix@.len() == 5,
                without_prefix(chars@, prefix@) == without_prefix(chars@.skip(from as int), prefix@),
            decreases chars@.len() - from,
        {
            proof {
                let rest = chars@.skip(from as int);
                assert(rest.subrange(0, 5) =~= chars@.subrange(from as int, from + 5));
                assert(text::starts_with(rest, prefix@));
                assert(rest.skip(5) =~= chars@.skip(from + 5));
            }
            assert(from + 5 <= chars.len());
            from = from + 5;
        }
        proof {
            let rest = chars@.skip(from as int);
            if text::starts_with(rest, prefix@) {
                assert(rest.subrange(0, 5) =~= chars@.subrange(from as int, from + 5));
            }
            assert(chars@.subrange(from as int, chars@.len() as int) =~= rest);
        }
        text::slice_text(&chars, from, chars.len())
    }
}

/// What stands in front of the path in every URL of a player.
pub open spec fn player_url(ip: IpAddr) -> Seq<char> {
    "http://"@ + ip.with_port(net::SONOS_PORT)
}

/// What stands in front of the path in every URL of a player.
pub fn player_url_text(ip: IpAddr) -> (r: String)
    ensures
        r@ == player_url(ip),
{
    let mut r = "http://".to_owned();
    let addr = net::sonos_addr(ip);
    r.append(addr.as_str());
    r
}

/// The name of the room in a description: the room's, or else a friendly one.
pub open spec fn described_room(fields: DeviceFields) -> Option<Seq<char>> {
    match (fields.room_name, fields.friendly_name) {
        (Some(name), _) => Some(name@),
        (None, Some(name)) => Some(name@),
        (None, None) => None,
    }
}

/// The description of a player at an address, from what was read of it: the
/// reader's failure, or the fields of the device, if there is one. It needs a
/// room, a model and an identifier, and the first that is missing is reported.
pub fn parse_device_description(read: Result<Option<DeviceFields>, String>, ip: IpAddr) -> (r: Result<
    DeviceDescription,
    DeviceDescriptionError,
>)
    ensures
        match read {
            Err(words) => r matches Err(DeviceDescriptionError::Parse(w)) && w@ == words@,
            Ok(None) => r matches Err(DeviceDescriptionError::MissingDevice),
            Ok(Some(fields)) => match (described_room(fields), fields.model_name, fields.udn) {
                (None, _, _) => r matches Err(DeviceDescriptionError::MissingField(f)) && f@
                    == "roomName"@,
                (Some(_), None, _) => r matches Err(DeviceDescriptionError::MissingField(f)) && f@
                    == "modelName"@,
                (Some(_), Some(_), None) => r matches Err(DeviceDescriptionError::MissingField(f))
                    && f@ == "UDN"@,
                (Some(room), Some(model), Some(udn)) => match r {
                    Ok(d) => {
                        &&& d.room_name@ == room
                        &&& d.model_name@ == model@
                        &&& d.udn@ == udn@
                        &&& web::parsed_url(player_url(ip)) == Some(d.base_url@)
                    },
                    Err(error) => error is Url && web::parsed_url(player_url(ip)) is None,
                },
            },
        },
{
    let fields: DeviceFields = match read {
        Err(words) => return Err(DeviceDescriptionError::Parse(words)),
        Ok(None) => return Err(DeviceDescriptionError::MissingDevice),
        Ok(Some(fields)) => fields,
    };
    let room_name: String = match fields.room_name {
        Some(name) => name,
        None => match fields.friendly_name {
            Some(name) => name,
            None => return Err(DeviceDescriptionError::MissingField("roomName")),
        },
    };
    let model_name: String = match fields.model_name {
        Some(name) => name,
        None => return Err(DeviceDescriptionError::MissingField("modelName")),
    };
    let udn: String = match fields.udn {
        Some(udn) => udn,
        None => return Err(DeviceDescriptionError::MissingField("UDN")),
    };
    let url = player_url_text(ip);
    match parse_url(url.as_str()) {
        Ok(base_url) => Ok(DeviceDescription { room_name, model_name, udn, base_url }),
        Err(error) => Err(DeviceDescriptionError::Url(error)),
    }
}

// ---------------------------------------------------------------------------
// Laws
// ---------------------------------------------------------------------------
/// The identifier of a player is its unique name without the mark `uuid:` before
/// it, however often that stands there; a name without the mark is the
/// identifier.
pub proof fn identifiers_have_no_mark(
    plain: &DeviceDescription,
    marked: &DeviceDescription,
    of_plain: String,
    of_marked: String,
)
    requires
        call_ensures(DeviceDescription::rincon_id, (plain,), of_plain),
        call_ensures(DeviceDescription::rincon_id, (marked,), of_marked),
        marked.udn@ == "uuid:"@ + plain.udn@,
    ensures
        of_marked@ == of_plain@,
        !("uuid:"@.is_prefix_of(plain.udn@)) ==> of_plain@ == plain.udn@,
        !("uuid:"@.is_prefix_of(of_plain@)),
{
    reveal_strlit("uuid:");
    let mark = "uuid:"@;
    let s = marked.udn@;
    assert(s.subrange(0, mark.len() as int) =~= mark);
    assert(text::starts_with(s, mark));
    assert(s.skip(mark.len() as int) =~= plain.udn@);
    lemma_no_prefix_left(plain.udn@, mark);
    if text::starts_with(plain.udn@, mark) {
        assert(plain.udn@.subrange(0, mark.len() as int) =~= plain.udn@.take(mark.len() as int));
    }
}

proof fn lemma_no_prefix_left(s: Seq<char>, prefix: Seq<char>)
    requires
        prefix.len() > 0,
    ensures
        !prefix.is_prefix_of(without_prefix(s, prefix)),
    decreases s.len(),
{
    if text::starts_with(s, prefix) {
        lemma_no_prefix_left(s.skip(prefix.len() as int), prefix);
    } else if prefix.is_prefix_of(s) {
        assert(s.subrange(0, prefix.len() as int) =~= s.take(prefix.len() as int));
    }
}

/// A description is understood where it names the device, its room, its model and
/// its unique name; the name of the room goes before the friendly one. Of what
/// is missing, the first in this order is named.
pub proof fn descriptions_need_their_fields(
    read: Result<Option<DeviceFields>, String>,
    ip: IpAddr,
    r: Result<DeviceDescription, DeviceDescriptionError>,
)
    requires
        call_ensures(parse_device_description, (read, ip), r),
    ensures
        r matches Ok(d) ==> (read matches Ok(Some(f)) && {
            &&& f.room_name matches Some(name) ==> d.room_name@ == name@
            &&& f.room_name is None ==> (f.friendly_name matches Some(name) && d.room_name@ == name@)
            &&& f.model_name matches Some(name) && d.model_name@ == name@
            &&& f.udn matches Some(name) && d.udn@ == name@
            &&& web::parsed_url(player_url(ip)) == Some(d.base_url@)
        }),
        read matches Ok(Some(f)) ==> {
            let roomless = f.room_name is None && f.friendly_name is None;
            &&& roomless ==> (r matches Err(DeviceDescriptionError::MissingField(name)) && name@
                == "roomName"@)
            &&& !roomless && f.model_name is None ==> (r matches Err(
                DeviceDescriptionError::MissingField(name),
            ) && name@ == "modelName"@)
            &&& !roomless && f.model_name is Some && f.udn is None ==> (r matches Err(
                DeviceDescriptionError::MissingField(name),
            ) && name@ == "UDN"@)
            &&& !roomless && f.model_name is Some && f.udn is Some ==> (r is Ok
                <==> web::parsed_url(player_url(ip)) is Some)
        },
        read matches Ok(None) ==> r matches Err(DeviceDescriptionError::MissingDevice),
        read matches Err(words) ==> (r matches Err(DeviceDescriptionError::Parse(said)) && said@
            == words@),
{
}

} // verus!
