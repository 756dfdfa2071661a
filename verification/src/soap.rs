//! The SOAP requests that control a Sonos player.

use vstd::prelude::*;
use vstd::string::StringExecFns;

use crate::text;

verus! {

/// A service of a player.
#[derive(Clone, Copy, Debug, PartialEq, Eq, Structural)]
pub enum SoapService {
    AvTransport,
    RenderingControl,
    ZoneGroupTopology,
}

impl SoapService {
    /// The path at which the service takes requests.
    pub open spec fn path_text(self) -> Seq<char> {
        match self {
            SoapService::AvTransport => "/MediaRenderer/AVTransport/Control"@,
            SoapService::RenderingControl => "/MediaRenderer/RenderingControl/Control"@,
            SoapService::ZoneGroupTopology => "/ZoneGroupTopology/Control"@,
        }
    }

    /// The path at which the service takes requests.
    pub fn control_path(self) -> (r: &'static str)
        ensures
            r@ == self.path_text(),
    {
        match self {
            SoapService::AvTransport => "/MediaRenderer/AVTransport/Control",
            SoapService::RenderingControl => "/MediaRenderer/RenderingControl/Control",
            SoapService::ZoneGroupTopology => "/ZoneGroupTopology/Control",
        }
    }

    /// The name of the service.
    pub open spec fn urn_text(self) -> Seq<char> {
        match self {
            SoapService::AvTransport => "urn:schemas-upnp-org:service:AVTransport:1"@,
            SoapService::RenderingControl => "urn:schemas-upnp-org:service:RenderingControl:1"@,
            SoapService::ZoneGroupTopology => "urn:schemas-upnp-org:service:ZoneGroupTopology:1"@,
        }
    }

    /// The name of the service.
    pub fn urn(self) -> (r: &'static str)
        ensures
            r@ == self.urn_text(),
    {
        match self {
            SoapService::AvTransport => "urn:schemas-upnp-org:service:AVTransport:1",
            SoapService::RenderingControl => "urn:schemas-upnp-org:service:RenderingControl:1",
            SoapService::ZoneGroupTopology => "urn:schemas-upnp-org:service:ZoneGroupTopology:1",
        }
    }
}

/// An action of a service.
#[derive(Clone, Copy, Debug, PartialEq, Eq)]
pub struct SoapAction {
    pub service: SoapService,
    pub action: &'static str,
}

impl SoapAction {
    /// Whether this is the action of a service by its name.
    pub open spec fn is(self, service: SoapService, name: Seq<char>) -> bool {
        self.service == service && self.action@ == name
    }

    pub fn set_av_transport_uri() -> (r: Self)
        ensures
            r.is(SoapService::AvTransport, "SetAVTransportURI"@),
    {
        SoapAction { service: SoapService::AvTransport, action: "SetAVTransportURI" }
    }

    pub fn play() -> (r: Self)
        ensures
            r.is(SoapService::AvTransport, "Play"@),
    {
        SoapAction { service: SoapService::AvTransport, action: "Play" }
    }

    pub fn pause() -> (r: Self)
        ensures
            r.is(SoapService::AvTransport, "Pause"@),
    {
        SoapAction { service: SoapService::AvTransport, action: "Pause" }
    }

    pub fn stop() -> (r: Self)
        ensures
            r.is(SoapService::AvTransport, "Stop"@),
    {
        SoapAction { service: SoapService::AvTransport, action: "Stop" }
    }

    pub fn become_standalone() -> (r: Self)
        ensures
            r.is(SoapService::AvTransport, "BecomeCoordinatorOfStandaloneGroup"@),
    {
        SoapAction {
            service: SoapService::AvTransport,
            action: "BecomeCoordinatorOfStandaloneGroup",
        }
    }

    pub fn set_volume() -> (r: Self)
        ensures
            r.is(SoapService::RenderingControl, "SetVolume"@),
    {
        SoapAction { service: SoapService::RenderingControl, action: "SetVolume" }
    }

    pub fn get_volume() -> (r: Self)
        ensures
            r.is(SoapService::RenderingControl, "GetVolume"@),
    {
        SoapAction { service: SoapService::RenderingControl, action: "GetVolume" }
    }

    pub fn get_zone_group_state() -> (r: Self)
        ensures
            r.is(SoapService::ZoneGroupTopology, "GetZoneGroupState"@),
    {
        SoapAction { service: SoapService::ZoneGroupTopology, action: "GetZoneGroupState" }
    }

    /// The header that names the action of a request.
    pub fn soap_action_header(self) -> (r: String)
        ensures
            r@ == header_text(self.service, self.action@),
    {
        let mut r = "\"".to_owned();
        r.append(self.service.urn());
        r.append("#");
        r.append(self.action);
        r.append("\"");
        r
    }
}

/// The header that names an action.
pub open spec fn header_text(service: SoapService, action: Seq<char>) -> Seq<char> {
    "\""@ + service.urn_text() + "#"@ + action + "\""@
}

/// Why no request could be built.
#[derive(Clone, Copy, Debug, PartialEq, Eq, Structural)]
pub enum SoapBuildError {
    VolumeOutOfRange(u8),
}

impl SoapBuildError {
    /// The error in words.
    pub fn message(&self) -> (r: String)
        ensures
            match self {
                SoapBuildError::VolumeOutOfRange(volume) => r@ == "volume must be in 0..=100, got "@
                    + text::decimal(*volume as nat),
            },
    {
        match self {
            SoapBuildError::VolumeOutOfRange(volume) => {
                let mut r = "volume must be in 0..=100, got ".to_owned();
                let digits = text::decimal_text(*volume as u64);
                r.append(digits.as_str());
                r
            },
        }
    }
}

// ---------------------------------------------------------------------------
// Requests
// ---------------------------------------------------------------------------
/// The envelope of an action with its arguments.
pub open spec fn envelope_text(service: SoapService, action: Seq<char>, inner_xml: Seq<char>) -> Seq<
    char,
> {
    "<?xml version=\"1.0\" encoding=\"utf-8\"?>\n<s:Envelope xmlns:s=\"http://schemas.xmlsoap.org/soap/envelope/\" s:encodingStyle=\"http://schemas.xmlsoap.org/soap/encoding/\">\n  <s:Body>\n    <u:"@
        + action + " xmlns:u=\""@ + service.urn_text() + "\">\n"@ + inner_xml + "\n    </u:"@
        + action + ">\n  </s:Body>\n</s:Envelope>"@
}

/// The envelope of an action with its arguments.
pub fn envelope(action: SoapAction, inner_xml: &str) -> (r: String)
    ensures
        r@ == envelope_text(action.service, action.action@, inner_xml@),
{
    let mut r =
        "<?xml version=\"1.0\" encoding=\"utf-8\"?>\n<s:Envelope xmlns:s=\"http://schemas.xmlsoap.org/soap/envelope/\" s:encodingStyle=\"http://schemas.xmlsoap.org/soap/encoding/\">\n  <s:Body>\n    <u:".to_owned();
    r.append(action.action);
    r.append(" xmlns:u=\"");
    r.append(action.service.urn());
    r.append("\">\n");
    r.append(inner_xml);
    r.append("\n    </u:");
    r.append(action.action);
    r.append(">\n  </s:Body>\n</s:Envelope>");
    r
}

/// A character as XML text.
pub open spec fn escaped_char(c: char) -> Seq<char> {
    if c == '&' {
        "&amp;"@
    } else if c == '<' {
        "&lt;"@
    } else if c == '>' {
        "&gt;"@
    } else if c == '"' {
        "&quot;"@
    } else if c == '\'' {
        "&apos;"@
    } else {
        seq![c]
    }
}

/// A text as XML text.
pub open spec fn escaped(s: Seq<char>) -> Seq<char>
    decreases s.len(),
{
    if s.len() == 0 {
        Seq::empty()
    } else {
        escaped(s.drop_last()) + escaped_char(s.last())
    }
}

/// A text as XML text.
pub fn escape_xml(value: &str) -> (r: String)
    ensures
        r@ == escaped(value@),
{
    let chars = text::to_chars(value);
    let mut r = String::new();
    let mut i: usize = 0;
    assert(chars@.take(0) =~= Seq::<char>::empty());
    while i < chars.len()
        invariant
            i <= chars@.len(),
            r@ == escaped(chars@.take(i as int)),
        decreases chars@.len() - i,
    {
        let c: char = chars[i];
        proof {
            let next = chars@.take(i + 1);
            assert(next.drop_last() =~= chars@.take(i as int));
            assert(next.last() == c);
        }
        let ghost before = r@;
        if c == '&' {
            r.append("&amp;");
        } else if c == '<' {
            r.append("&lt;");
        } else if c == '>' {
            r.append("&gt;");
        } else if c == '"' {
            r.append("&quot;");
        } else if c == '\'' {
            r.append("&apos;");
        } else {
            r.push(c);
        }
        assert(r@ =~= before + escaped_char(c));
        i = i + 1;
    }
    assert(chars@.take(i as int) =~= chars@);
    r
}

/// The arguments that point a player at a stream.
pub open spec fn transport_uri_arguments(uri: Seq<char>, metadata: Seq<char>) -> Seq<char> {
    "      <InstanceID>0</InstanceID>\n      <CurrentURI>"@ + escaped(uri)
        + "</CurrentURI>\n      <CurrentURIMetaData>"@ + escaped(metadata)
        + "</CurrentURIMetaData>"@
}

/// The request that points a player at a stream.
pub fn set_av_transport_uri_body(uri: &str, metadata: &str) -> (r: String)
    ensures
        r@ == envelope_text(
            SoapService::AvTransport,
            "SetAVTransportURI"@,
            transport_uri_arguments(uri@, metadata@),
        ),
{
    let mut inner = "      <InstanceID>0</InstanceID>\n      <CurrentURI>".to_owned();
    let uri_xml = escape_xml(uri);
    inner.append(uri_xml.as_str());
    inner.append("</CurrentURI>\n      <CurrentURIMetaData>");
    let metadata_xml = escape_xml(metadata);
    inner.append(metadata_xml.as_str());
    inner.append("</CurrentURIMetaData>");
    envelope(SoapAction::set_av_transport_uri(), inner.as_str())
}

/// The request that starts a player.
pub fn play_body() -> (r: String)
    ensures
        r@ == envelope_text(
            SoapService::AvTransport,
            "Play"@,
            "      <InstanceID>0</InstanceID>\n      <Speed>1</Speed>"@,
        ),
{
    envelope(SoapAction::play(), "      <InstanceID>0</InstanceID>\n      <Speed>1</Speed>")
}

/// The request that pauses a player.
pub fn pause_body() -> (r: String)
    ensures
        r@ == envelope_text(
            SoapService::AvTransport,
            "Pause"@,
            "      <InstanceID>0</InstanceID>"@,
        ),
{
    envelope(SoapAction::pause(), "      <InstanceID>0</InstanceID>")
}

/// The request that stops a player.
pub fn stop_body() -> (r: String)
    ensures
        r@ == envelope_text(
            SoapService::AvTransport,
            "Stop"@,
            "      <InstanceID>0</InstanceID>"@,
        ),
{
    envelope(SoapAction::stop(), "      <InstanceID>0</InstanceID>")
}

/// The request that takes a player out of its group.
pub fn become_standalone_body() -> (r: String)
    ensures
        r@ == envelope_text(
            SoapService::AvTransport,
            "BecomeCoordinatorOfStandaloneGroup"@,
            "      <InstanceID>0</InstanceID>"@,
        ),
{
    envelope(SoapAction::become_standalone(), "      <InstanceID>0</InstanceID>")
}

/// The arguments that set the volume of a player.
pub open spec fn volume_arguments(volume: u8) -> Seq<char> {
    "      <InstanceID>0</InstanceID>\n      <Channel>Master</Channel>\n      <DesiredVolume>"@
        + text::decimal(volume as nat) + "</DesiredVolume>"@
}

/// The request that sets the volume of a player, which is a percentage.
pub fn set_volume_body(volume: u8) -> (r: Result<String, SoapBuildError>)
    ensures
        match r {
            Ok(body) => volume <= 100 && body@ == envelope_text(
                SoapService::RenderingControl,
                "SetVolume"@,
                volume_arguments(volume),
            ),
            Err(error) => volume > 100 && error == SoapBuildError::VolumeOutOfRange(volume),
        },
{
    if volume > 100 {
        return Err(SoapBuildError::VolumeOutOfRange(volume));
    }
    let mut inner =
        "      <InstanceID>0</InstanceID>\n      <Channel>Master</Channel>\n      <DesiredVolume>".to_owned();
    let digits = text::decimal_text(volume as u64);
    inner.append(digits.as_str());
    inner.append("</DesiredVolume>");
    Ok(envelope(SoapAction::set_volume(), inner.as_str()))
}

/// The request that asks a player for its volume.
pub fn get_volume_body() -> (r: String)
    ensures
        r@ == envelope_text(
            SoapService::RenderingControl,
            "GetVolume"@,
            "      <InstanceID>0</InstanceID>\n      <Channel>Master</Channel>"@,
        ),
{
    envelope(
        SoapAction::get_volume(),
        "      <InstanceID>0</InstanceID>\n      <Channel>Master</Channel>",
    )
}

/// The request that asks a player for the topology of its household.
pub fn get_zone_group_state_body() -> (r: String)
    ensures
        r@ == envelope_text(SoapService::ZoneGroupTopology, "GetZoneGroupState"@, ""@),
{
    envelope(SoapAction::get_zone_group_state(), "")
}

/// The description of a stream by its title.
pub open spec fn metadata_text(title: Seq<char>) -> Seq<char> {
    "<DIDL-Lite xmlns:dc=\"http://purl.org/dc/elements/1.1/\" xmlns:upnp=\"urn:schemas-upnp-org:metadata-1-0/upnp/\" xmlns:r=\"urn:schemas-rinconnetworks-com:metadata-1-0/\" xmlns=\"urn:schemas-upnp-org:metadata-1-0/DIDL-Lite/\"><item id=\"airsonos2\" parentID=\"0\" restricted=\"true\"><dc:title>"@
        + escaped(title)
        + "</dc:title><upnp:class>object.item.audioItem.audioBroadcast</upnp:class></item></DIDL-Lite>"@
}

/// The description of a stream by its title.
pub fn set_av_transport_uri_metadata(title: &str) -> (r: String)
    ensures
        r@ == metadata_text(title@),
{
    let mut r =
        "<DIDL-Lite xmlns:dc=\"http://purl.org/dc/elements/1.1/\" xmlns:upnp=\"urn:schemas-upnp-org:metadata-1-0/upnp/\" xmlns:r=\"urn:schemas-rinconnetworks-com:metadata-1-0/\" xmlns=\"urn:schemas-upnp-org:metadata-1-0/DIDL-Lite/\"><item id=\"airsonos2\" parentID=\"0\" restricted=\"true\"><dc:title>".to_owned();
    let title_xml = escape_xml(title);
    r.append(title_xml.as_str());
    r.append(
        "</dc:title><upnp:class>object.item.audioItem.audioBroadcast</upnp:class></item></DIDL-Lite>",
    );
    r
}

// ---------------------------------------------------------------------------
// Replies
// ---------------------------------------------------------------------------
/// The volume in a player's reply: the percentage between the first tag that
/// opens a volume and the next one that closes it.
pub open spec fn volume_in(xml: Seq<char>) -> Option<nat> {
    match text::find_from(xml, "<CurrentVolume>"@, 0) {
        Some(start) => {
            let from = start + "<CurrentVolume>"@.len();
            match text::find_from(xml, "</CurrentVolume>"@, from) {
                Some(to) => text::parse_unsigned(text::trimmed(xml.subrange(from, to)), 100),
                None => None,
            }
        },
        None => None,
    }
}

/// The volume in a player's reply.
pub fn parse_get_volume_response(xml: &str) -> (r: Option<u8>)
    ensures
        match r {
            Some(volume) => volume <= 100 && volume_in(xml@) == Some(volume as nat),
            None => volume_in(xml@) is None,
        },
{
    let chars = text::to_chars(xml);
    let open = text::to_chars("<CurrentVolume>");
    let close = text::to_chars("</CurrentVolume>");
    let start: usize = match text::find_in(&chars, &open, 0) {
        Some(start) => start,
        None => return None,
    };
    proof {
        text::lemma_find_from(chars@, open@, 0);
    }
    let from: usize = start + open.len();
    let to: usize = match text::find_in(&chars, &close, from) {
        Some(to) => to,
        None => return None,
    };
    proof {
        text::lemma_find_from(chars@, close@, from as int);
    }
    let (first, last): (usize, usize) = text::trim_bounds(&chars, from, to);
    match text::parse_number(&chars, first, last, 100) {
        Some(volume) => Some(volume as u8),
        None => None,
    }
}

// ---------------------------------------------------------------------------
// Laws
// ---------------------------------------------------------------------------
/// Escaping a text in two parts is escaping each part.
proof fn lemma_escaped_parts(a: Seq<char>, b: Seq<char>)
    ensures
        escaped(a + b) == escaped(a) + escaped(b),
    decreases b.len(),
{
    if b.len() == 0 {
        assert(a + b =~= a);
        assert(escaped(a) + escaped(b) =~= escaped(a));
    } else {
        assert((a + b).drop_last() =~= a + b.drop_last());
        assert((a + b).last() == b.last());
        lemma_escaped_parts(a, b.drop_last());
        assert(escaped(a + b) =~= escaped(a) + escaped(b));
    }
}

/// Escaped text holds no markup: no angle bracket and no quotation mark.
pub proof fn escaped_text_holds_no_markup(s: Seq<char>, i: int)
    requires
        0 <= i < escaped(s).len(),
    ensures
        escaped(s)[i] != '<',
        escaped(s)[i] != '>',
        escaped(s)[i] != '"',
        escaped(s)[i] != '\'',
    decreases s.len(),
{
    reveal_strlit("&amp;");
    reveal_strlit("&lt;");
    reveal_strlit("&gt;");
    reveal_strlit("&quot;");
    reveal_strlit("&apos;");
    let rest = escaped(s.drop_last());
    if i < rest.len() {
        escaped_text_holds_no_markup(s.drop_last(), i);
    }
}

/// Different texts have different escaped forms, so that a player reads what was
/// written.
pub proof fn escaping_keeps_texts_apart(a: Seq<char>, b: Seq<char>)
    requires
        escaped(a) == escaped(b),
    ensures
        a == b,
    decreases a.len(),
{
    reveal_strlit("&amp;");
    reveal_strlit("&lt;");
    reveal_strlit("&gt;");
    reveal_strlit("&quot;");
    reveal_strlit("&apos;");
    if a.len() == 0 {
        if b.len() > 0 {
            assert(escaped_char(b.last()).len() > 0);
        }
        assert(a =~= b);
    } else if b.len() == 0 {
        assert(escaped_char(a.last()).len() > 0);
    } else {
        assert(a =~= a.take(1) + a.skip(1));
        assert(b =~= b.take(1) + b.skip(1));
        lemma_escaped_parts(a.take(1), a.skip(1));
        lemma_escaped_parts(b.take(1), b.skip(1));
        assert(a.take(1).drop_last() =~= Seq::<char>::empty());
        assert(b.take(1).drop_last() =~= Seq::<char>::empty());
        let x = escaped_char(a[0]);
        let y = escaped_char(b[0]);
        assert(escaped(Seq::<char>::empty()) =~= Seq::<char>::empty());
        assert(a.take(1).last() == a[0] && b.take(1).last() == b[0]);
        assert(escaped(a.take(1)) =~= x);
        assert(escaped(b.take(1)) =~= y);
        let s = escaped(a);
        assert(s =~= x + escaped(a.skip(1)));
        assert(s =~= y + escaped(b.skip(1)));
        assert(s[0] == x[0] && s[0] == y[0]);
        if a[0] != b[0] {
            if x.len() > 1 {
                assert(s[1] == x[1]);
            }
            if y.len() > 1 {
                assert(s[1] == y[1]);
            }
            if x.len() > 2 && y.len() > 2 {
                assert(s[2] == x[2] && s[2] == y[2]);
            }
        }
        assert(a[0] == b[0]);
        assert(escaped(a.skip(1)) =~= s.skip(x.len() as int));
        assert(escaped(b.skip(1)) =~= s.skip(y.len() as int));
        escaping_keeps_texts_apart(a.skip(1), b.skip(1));
    }
}

// ---------------------------------------------------------------------------
// What callers see
// ---------------------------------------------------------------------------
/// Text is escaped character by character: each of the five marks of XML becomes
/// its entity, and every other character stays.
pub proof fn marks_become_entities(
    a: &str,
    b: &str,
    ab: &str,
    ra: String,
    rb: String,
    rab: String,
    c: char,
)
    requires
        call_ensures(escape_xml, (a,), ra),
        call_ensures(escape_xml, (b,), rb),
        call_ensures(escape_xml, (ab,), rab),
        ab@ == a@ + b@,
    ensures
        rab@ == ra@ + rb@,
        a@ == seq!['&'] ==> ra@ == "&amp;"@,
        a@ == seq!['<'] ==> ra@ == "&lt;"@,
        a@ == seq!['>'] ==> ra@ == "&gt;"@,
        a@ == seq!['"'] ==> ra@ == "&quot;"@,
        a@ == seq!['\''] ==> ra@ == "&apos;"@,
        a@ == seq![c] && c != '&' && c != '<' && c != '>' && c != '"' && c != '\'' ==> ra@ == a@,
        a@.len() == 0 ==> ra@.len() == 0,
{
    lemma_escaped_parts(a@, b@);
    if a@.len() == 1 {
        assert(a@.drop_last() =~= Seq::empty());
        assert(escaped(a@.drop_last()) =~= Seq::empty());
        assert(ra@ =~= escaped_char(a@[0]));
    }
}

/// An envelope names its action before and after its arguments, which stand in it
/// as they are, and the service that the action is of.
pub proof fn envelopes_hold_their_arguments(action: SoapAction, inner: &str, r: String)
    requires
        call_ensures(envelope, (action, inner), r),
    ensures
        exists|head: Seq<char>, tail: Seq<char>|
            r@ == #[trigger] (head + ("<u:"@ + action.action@ + " xmlns:u=\""@
                + action.service.urn_text() + "\">\n"@ + inner@ + "\n    </u:"@ + action.action@
                + ">"@) + tail),
{
    reveal_strlit(
        "<?xml version=\"1.0\" encoding=\"utf-8\"?>\n<s:Envelope xmlns:s=\"http://schemas.xmlsoap.org/soap/envelope/\" s:encodingStyle=\"http://schemas.xmlsoap.org/soap/encoding/\">\n  <s:Body>\n    <u:",
    );
    reveal_strlit(">\n  </s:Body>\n</s:Envelope>");
    reveal_strlit("<u:");
    reveal_strlit(">");
    let first = "<?xml version=\"1.0\" encoding=\"utf-8\"?>\n<s:Envelope xmlns:s=\"http://schemas.xmlsoap.org/soap/envelope/\" s:encodingStyle=\"http://schemas.xmlsoap.org/soap/encoding/\">\n  <s:Body>\n    <u:"@;
    let last = ">\n  </s:Body>\n</s:Envelope>"@;
    let head = first.take(first.len() - 3);
    let tail = last.skip(1);
    assert(first =~= head + "<u:"@);
    assert(last =~= ">"@ + tail);
    let middle = "<u:"@ + action.action@ + " xmlns:u=\""@ + action.service.urn_text() + "\">\n"@
        + inner@ + "\n    </u:"@ + action.action@ + ">"@;
    assert(r@ =~= head + middle + tail);
}

/// A volume is asked for in decimal between its tags, and only up to a hundred;
/// one above is refused and named.
pub proof fn volumes_are_asked_for_up_to_a_hundred(volume: u8, r: Result<String, SoapBuildError>)
    requires
        call_ensures(set_volume_body, (volume,), r),
    ensures
        r is Ok <==> volume <= 100,
        r matches Err(SoapBuildError::VolumeOutOfRange(named)) ==> named == volume,
        r matches Ok(body) ==> exists|head: Seq<char>, tail: Seq<char>|
            body@ == #[trigger] (head + ("<DesiredVolume>"@ + text::decimal(volume as nat)
                + "</DesiredVolume>"@) + tail),
{
    if let Ok(body) = r {
        reveal_strlit(
            "      <InstanceID>0</InstanceID>\n      <Channel>Master</Channel>\n      <DesiredVolume>",
        );
        reveal_strlit("<DesiredVolume>");
        let lead = "      <InstanceID>0</InstanceID>\n      <Channel>Master</Channel>\n      <DesiredVolume>"@;
        let middle = "<DesiredVolume>"@ + text::decimal(volume as nat) + "</DesiredVolume>"@;
        let n = lead.len() - "<DesiredVolume>"@.len();
        assert(lead =~= lead.take(n) + "<DesiredVolume>"@);
        let inner = volume_arguments(volume);
        assert(inner =~= lead.take(n) + middle);
        let urn = SoapService::RenderingControl.urn_text();
        let before = "<?xml version=\"1.0\" encoding=\"utf-8\"?>\n<s:Envelope xmlns:s=\"http://schemas.xmlsoap.org/soap/envelope/\" s:encodingStyle=\"http://schemas.xmlsoap.org/soap/encoding/\">\n  <s:Body>\n    <u:"@
            + "SetVolume"@ + " xmlns:u=\""@ + urn + "\">\n"@;
        let after = "\n    </u:"@ + "SetVolume"@ + ">\n  </s:Body>\n</s:Envelope>"@;
        assert(body@ =~= (before + lead.take(n)) + middle + after);
    }
}

/// The volume that a player names between the tags of its answer is read back,
/// where it is at most a hundred; an answer without the tags is not understood.
pub proof fn named_volumes_are_read_back(
    xml: &str,
    before: Seq<char>,
    n: nat,
    after: Seq<char>,
    r: Option<u8>,
)
    requires
        call_ensures(parse_get_volume_response, (xml,), r),
        !before.contains('<'),
    ensures
        xml@ == before + "<CurrentVolume>"@ + text::decimal(n) + "</CurrentVolume>"@ + after ==> (n
            <= 100 ==> r == Some(n as u8)) && (n > 100 ==> r is None),
        xml@ == before ==> r is None,
{
    let open = "<CurrentVolume>"@;
    let close = "</CurrentVolume>"@;
    let d = text::decimal(n);
    reveal_strlit("<CurrentVolume>");
    reveal_strlit("</CurrentVolume>");
    text::lemma_find_from(xml@, open, 0);
    if xml@ == before {
        assert forall|j: int| 0 <= j implies !text::occurs_at(before, open, j) by {
            if text::occurs_at(before, open, j) {
                assert(before.subrange(j, j + open.len())[0] == before[j]);
                assert(before.contains(before[j]));
            }
        }
    }
    let s = before + open + d + close + after;
    if xml@ == s {
        text::lemma_decimal_digits(n);
        let start = before.len() as int;
        let from = start + open.len();
        assert(s.subrange(start, from) =~= open);
        assert(text::occurs_at(s, open, start));
        let i = text::find_from(s, open, 0)->0;
        assert(i == start) by {
            if i < start {
                assert(s.subrange(i, i + open.len())[0] == before[i]);
                assert(before.contains(before[i]));
            }
        }
        let to = from + d.len();
        assert(s.subrange(to, to + close.len()) =~= close);
        text::lemma_find_from(s, close, from);
        assert(text::occurs_at(s, close, to));
        let k = text::find_from(s, close, from)->0;
        assert(k == to) by {
            if k < to {
                assert(s.subrange(k, k + close.len())[0] == d[k - from]);
                assert(text::is_digit(d[k - from]));
            }
        }
        assert(s.subrange(from, to) =~= d);
        lemma_digits_are_trimmed(d);
        assert(text::is_digit(d[0]));
        assert(text::unsigned_digits(d) == d);
    }
}

proof fn lemma_digits_are_trimmed(d: Seq<char>)
    requires
        text::all_digits(d),
    ensures
        text::trimmed(d) == d,
{
    assert(text::is_digit(d[0]));
    assert(text::is_digit(d[d.len() - 1]));
    assert(text::trim_start(d) == d);
    assert(text::trim_end(d) == d);
}

/// The header of a request names the service and the action in quotes, with a
/// hash between them.
pub proof fn headers_name_the_action(action: SoapAction, r: String)
    requires
        call_ensures(SoapAction::soap_action_header, (action,), r),
    ensures
        r@ == seq!['"'] + action.service.urn_text() + seq!['#'] + action.action@ + seq!['"'],
{
    reveal_strlit("\"");
    reveal_strlit("#");
    assert("\""@ =~= seq!['"']);
    assert("#"@ =~= seq!['#']);
}

/// The description of a stream shows its title, escaped.
pub proof fn descriptions_show_the_title(title: &str, r: String)
    requires
        call_ensures(set_av_transport_uri_metadata, (title,), r),
    ensures
        exists|head: Seq<char>, tail: Seq<char>|
            r@ == #[trigger] (head + ("<dc:title>"@ + escaped(title@) + "</dc:title>"@) + tail),
{
    let first = "<DIDL-Lite xmlns:dc=\"http://purl.org/dc/elements/1.1/\" xmlns:upnp=\"urn:schemas-upnp-org:metadata-1-0/upnp/\" xmlns:r=\"urn:schemas-rinconnetworks-com:metadata-1-0/\" xmlns=\"urn:schemas-upnp-org:metadata-1-0/DIDL-Lite/\"><item id=\"airsonos2\" parentID=\"0\" restricted=\"true\"><dc:title>"@;
    let last = "</dc:title><upnp:class>object.item.audioItem.audioBroadcast</upnp:class></item></DIDL-Lite>"@;
    reveal_strlit(
        "<DIDL-Lite xmlns:dc=\"http://purl.org/dc/elements/1.1/\" xmlns:upnp=\"urn:schemas-upnp-org:metadata-1-0/upnp/\" xmlns:r=\"urn:schemas-rinconnetworks-com:metadata-1-0/\" xmlns=\"urn:schemas-upnp-org:metadata-1-0/DIDL-Lite/\"><item id=\"airsonos2\" parentID=\"0\" restricted=\"true\"><dc:title>",
    );
    reveal_strlit(
        "</dc:title><upnp:class>object.item.audioItem.audioBroadcast</upnp:class></item></DIDL-Lite>",
    );
    reveal_strlit("<dc:title>");
    reveal_strlit("</dc:title>");
    let head = first.take(first.len() - 10);
    let tail = last.skip(11);
    assert(first =~= head + "<dc:title>"@);
    assert(last =~= "</dc:title>"@ + tail);
    assert(r@ =~= head + ("<dc:title>"@ + escaped(title@) + "</dc:title>"@) + tail);
}

/// The refusal of a volume names it in decimal, at the end.
pub proof fn refusals_name_the_volume(volume: u8, error: &SoapBuildError, r: String)
    requires
        *error == SoapBuildError::VolumeOutOfRange(volume),
        call_ensures(SoapBuildError::message, (error,), r),
    ensures
        text::digits_value(r@.skip("volume must be in 0..=100, got "@.len() as int)) == volume,
        "volume must be in 0..=100, got "@.is_prefix_of(r@),
{
    let lead = "volume must be in 0..=100, got "@;
    text::lemma_decimal_digits(volume as nat);
    assert(lead =~= r@.take(lead.len() as int));
    assert(r@.skip(lead.len() as int) =~= text::decimal(volume as nat));
}

/// Every body for a player's transport is addressed to its one instance, and
/// playing is asked for at normal speed.
pub proof fn bodies_are_for_the_one_instance(
    play: String,
    pause: String,
    stop: String,
    leave: String,
)
    requires
        call_ensures(play_body, (), play),
        call_ensures(pause_body, (), pause),
        call_ensures(stop_body, (), stop),
        call_ensures(become_standalone_body, (), leave),
    ensures
        holds(play@, "<InstanceID>0</InstanceID>"@),
        holds(play@, "<Speed>1</Speed>"@),
        holds(pause@, "<InstanceID>0</InstanceID>"@),
        holds(stop@, "<InstanceID>0</InstanceID>"@),
        holds(leave@, "<InstanceID>0</InstanceID>"@),
{
    let instance = "      <InstanceID>0</InstanceID>"@;
    let speed = "      <InstanceID>0</InstanceID>\n      <Speed>1</Speed>"@;
    reveal_strlit("      <InstanceID>0</InstanceID>");
    reveal_strlit("      <InstanceID>0</InstanceID>\n      <Speed>1</Speed>");
    reveal_strlit("<InstanceID>0</InstanceID>");
    reveal_strlit("<Speed>1</Speed>");
    let tag = "<InstanceID>0</InstanceID>"@;
    assert(instance =~= instance.take(6) + tag + Seq::empty());
    assert(speed =~= speed.take(6) + tag + speed.skip(32));
    assert(speed =~= speed.take(speed.len() - 16) + "<Speed>1</Speed>"@ + Seq::empty());
    lemma_envelope_holds(SoapService::AvTransport, "Play"@, speed, tag);
    lemma_envelope_holds(SoapService::AvTransport, "Play"@, speed, "<Speed>1</Speed>"@);
    lemma_envelope_holds(SoapService::AvTransport, "Pause"@, instance, tag);
    lemma_envelope_holds(SoapService::AvTransport, "Stop"@, instance, tag);
    lemma_envelope_holds(
        SoapService::AvTransport,
        "BecomeCoordinatorOfStandaloneGroup"@,
        instance,
        tag,
    );
}

/// Whether a text stands within another.
pub open spec fn holds(s: Seq<char>, part: Seq<char>) -> bool {
    exists|head: Seq<char>, tail: Seq<char>| s == #[trigger] (head + part + tail)
}

proof fn lemma_envelope_holds(
    service: SoapService,
    action: Seq<char>,
    inner: Seq<char>,
    part: Seq<char>,
)
    requires
        holds(inner, part),
    ensures
        holds(envelope_text(service, action, inner), part),
{
    let (a, b) = choose|a: Seq<char>, b: Seq<char>| inner == #[trigger] (a + part + b);
    let head = "<?xml version=\"1.0\" encoding=\"utf-8\"?>\n<s:Envelope xmlns:s=\"http://schemas.xmlsoap.org/soap/envelope/\" s:encodingStyle=\"http://schemas.xmlsoap.org/soap/encoding/\">\n  <s:Body>\n    <u:"@
        + action + " xmlns:u=\""@ + service.urn_text() + "\">\n"@;
    let tail = "\n    </u:"@ + action + ">\n  </s:Body>\n</s:Envelope>"@;
    let whole = envelope_text(service, action, inner);
    assert(whole =~= head + inner + tail);
    assert(whole =~= (head + a) + part + (b + tail));
}

} // verus!
