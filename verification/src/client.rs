//! Controlling a Sonos player: the requests, and what the replies mean.

use vstd::prelude::*;

use crate::net::IpAddr;
use crate::soap;
use crate::soap::{
    become_standalone_body, get_volume_body, get_zone_group_state_body, parse_get_volume_response,
    pause_body, play_body, set_av_transport_uri_body, set_av_transport_uri_metadata,
    set_volume_body, stop_body, SoapAction, SoapBuildError, SoapService,
};
use crate::topology;
use crate::topology::{parse_zone_group_state, ZoneGroupMember};
use crate::web;
use crate::web::{join_url, parse_url};
use crate::xml;
use crate::xml::player_url_text;

verus! {

/// How long a request may take, in seconds.
pub const REQUEST_TIMEOUT_SECS: u64 = 5;

/// The media type of a request.
pub const REQUEST_CONTENT_TYPE: &'static str = "text/xml; charset=\"utf-8\"";

/// The client of a player.
#[derive(Debug, PartialEq, Eq)]
pub struct SonosClient {
    base_url: String,
}

/// A failed exchange with a player, in the words of the HTTP client.
#[derive(Debug, PartialEq, Eq)]
pub struct HttpFailure {
    pub message: String,
    pub timeout: bool,
}

/// Why a player could not be controlled.
#[derive(Debug)]
pub enum SonosClientError {
    Url(url::ParseError),
    Http(HttpFailure),
    Soap(SoapBuildError),
    UnexpectedGetVolumeResponse,
}

impl SonosClientError {
    /// Whether the player did not answer in time.
    pub fn is_timeout(&self) -> (r: bool)
        ensures
            r == (self matches SonosClientError::Http(failure) && failure.timeout),
    {
        match self {
            SonosClientError::Http(failure) => failure.timeout,
            _ => false,
        }
    }
}

/// A request to a player.
#[derive(Debug, PartialEq, Eq)]
pub struct SoapRequest {
    pub url: String,
    pub soap_action: String,
    pub content_type: String,
    pub body: String,
}

impl SoapRequest {
    /// Whether this is the request with a body to an action of a service of the
    /// player at a URL.
    pub open spec fn asks(
        self,
        base: Seq<char>,
        service: SoapService,
        action: Seq<char>,
        body: Seq<char>,
    ) -> bool {
        &&& web::joined_url(base, service.path_text()) == Some(self.url@)
        &&& self.soap_action@ == soap::header_text(service, action)
        &&& self.content_type@ == REQUEST_CONTENT_TYPE@
        &&& self.body@ == body
    }
}

/// Whether a result is the request to an action of a service, or the failure to
/// find the URL for it.
pub open spec fn is_request(
    r: Result<SoapRequest, SonosClientError>,
    base: Seq<char>,
    service: SoapService,
    action: Seq<char>,
    inner: Seq<char>,
) -> bool {
    match r {
        Ok(request) => request.asks(
            base,
            service,
            action,
            soap::envelope_text(service, action, inner),
        ),
        Err(error) => error is Url && web::joined_url(base, service.path_text()) is None,
    }
}

impl SonosClient {
    /// The URL of the player.
    pub closed spec fn base(self) -> Seq<char> {
        self.base_url@
    }

    /// The client of the player at an address.
    pub fn new(ip: IpAddr) -> (r: Result<Self, SonosClientError>)
        ensures
            match r {
                Ok(client) => web::parsed_url(xml::player_url(ip)) == Some(client.base()),
                Err(error) => error is Url && web::parsed_url(xml::player_url(ip)) is None,
            },
    {
        let url = player_url_text(ip);
        SonosClient::from_base_url(url.as_str())
    }

    /// The client of the player at a URL.
    pub fn from_base_url(url: &str) -> (r: Result<Self, SonosClientError>)
        ensures
            match r {
                Ok(client) => web::parsed_url(url@) == Some(client.base()),
                Err(error) => error is Url && web::parsed_url(url@) is None,
            },
    {
        match parse_url(url) {
            Ok(base_url) => Ok(SonosClient { base_url }),
            Err(error) => Err(SonosClientError::Url(error)),
        }
    }

    /// The URL of the player.
    pub fn base_url(&self) -> (r: &str)
        ensures
            r@ == self.base(),
    {
        self.base_url.as_str()
    }

    fn soap(&self, action: SoapAction, body: String) -> (r: Result<SoapRequest, SonosClientError>)
        ensures
            match r {
                Ok(request) => request.asks(
                    self.base(),
                    action.service,
                    action.action@,
                    body@,
                ),
                Err(error) => error is Url && web::joined_url(
                    self.base(),
                    action.service.path_text(),
                ) is None,
            },
    {
        match join_url(self.base_url.as_str(), action.service.control_path()) {
            Ok(url) => Ok(
                SoapRequest {
                    url,
                    soap_action: action.soap_action_header(),
                    content_type: REQUEST_CONTENT_TYPE.to_owned(),
                    body,
                },
            ),
            Err(error) => Err(SonosClientError::Url(error)),
        }
    }

    /// Points the player at a stream.
    pub fn set_av_transport_uri(&self, uri: &str, title: &str) -> (r: Result<
        SoapRequest,
        SonosClientError,
    >)
        ensures
            is_request(
                r,
                self.base(),
                SoapService::AvTransport,
                "SetAVTransportURI"@,
                soap::transport_uri_arguments(uri@, soap::metadata_text(title@)),
            ),
    {
        let metadata = set_av_transport_uri_metadata(title);
        let body = set_av_transport_uri_body(uri, metadata.as_str());
        self.soap(SoapAction::set_av_transport_uri(), body)
    }

    /// Starts the player.
    pub fn play(&self) -> (r: Result<SoapRequest, SonosClientError>)
        ensures
            is_request(
                r,
                self.base(),
                SoapService::AvTransport,
                "Play"@,
                "      <InstanceID>0</InstanceID>\n      <Speed>1</Speed>"@,
            ),
    {
        self.soap(SoapAction::play(), play_body())
    }

    /// Pauses the player.
    pub fn pause(&self) -> (r: Result<SoapRequest, SonosClientError>)
        ensures
            is_request(
                r,
                self.base(),
                SoapService::AvTransport,
                "Pause"@,
                "      <InstanceID>0</InstanceID>"@,
            ),
    {
        self.soap(SoapAction::pause(), pause_body())
    }

    /// Stops the player.
    pub fn stop(&self) -> (r: Result<SoapRequest, SonosClientError>)
        ensures
            is_request(
                r,
                self.base(),
                SoapService::AvTransport,
                "Stop"@,
                "      <InstanceID>0</InstanceID>"@,
            ),
    {
        self.soap(SoapAction::stop(), stop_body())
    }

    /// Takes the player out of its group.
    pub fn become_coordinator_of_standalone_group(&self) -> (r: Result<
        SoapRequest,
        SonosClientError,
    >)
        ensures
            is_request(
                r,
                self.base(),
                SoapService::AvTransport,
                "BecomeCoordinatorOfStandaloneGroup"@,
                "      <InstanceID>0</InstanceID>"@,
            ),
    {
        self.soap(SoapAction::become_standalone(), become_standalone_body())
    }

    /// Sets the volume of the player, which is a percentage.
    pub fn set_volume(&self, volume: u8) -> (r: Result<SoapRequest, SonosClientError>)
        ensures
            if volume > 100 {
                r matches Err(SonosClientError::Soap(error)) && error
                    == SoapBuildError::VolumeOutOfRange(volume)
            } else {
                is_request(
                    r,
                    self.base(),
                    SoapService::RenderingControl,
                    "SetVolume"@,
                    soap::volume_arguments(volume),
                )
            },
    {
        match set_volume_body(volume) {
            Ok(body) => self.soap(SoapAction::set_volume(), body),
            Err(error) => Err(SonosClientError::Soap(error)),
        }
    }

    /// Asks the player for its volume.
    pub fn get_volume(&self) -> (r: Result<SoapRequest, SonosClientError>)
        ensures
            is_request(
                r,
                self.base(),
                SoapService::RenderingControl,
                "GetVolume"@,
                "      <InstanceID>0</InstanceID>\n      <Channel>Master</Channel>"@,
            ),
    {
        self.soap(SoapAction::get_volume(), get_volume_body())
    }

    /// Asks the player for the topology of its household.
    pub fn get_zone_group_state(&self) -> (r: Result<SoapRequest, SonosClientError>)
        ensures
            is_request(
                r,
                self.base(),
                SoapService::ZoneGroupTopology,
                "GetZoneGroupState"@,
                ""@,
            ),
    {
        self.soap(SoapAction::get_zone_group_state(), get_zone_group_state_body())
    }
}

/// What a reply means to a request that only has to succeed.
pub fn read_done(reply: Result<String, HttpFailure>) -> (r: Result<(), SonosClientError>)
    ensures
        match reply {
            Ok(_) => r is Ok,
            Err(failure) => r == Err::<(), SonosClientError>(SonosClientError::Http(failure)),
        },
{
    match reply {
        Ok(_) => Ok(()),
        Err(failure) => Err(SonosClientError::Http(failure)),
    }
}

/// The volume in the reply to a request for it.
pub fn read_volume(reply: Result<String, HttpFailure>) -> (r: Result<u8, SonosClientError>)
    ensures
        match reply {
            Ok(body) => match soap::volume_in(body@) {
                Some(volume) => r is Ok && r->Ok_0 == volume,
                None => r matches Err(SonosClientError::UnexpectedGetVolumeResponse),
            },
            Err(failure) => r == Err::<u8, SonosClientError>(SonosClientError::Http(failure)),
        },
{
    match reply {
        Ok(body) => match parse_get_volume_response(body.as_str()) {
            Some(volume) => Ok(volume),
            None => Err(SonosClientError::UnexpectedGetVolumeResponse),
        },
        Err(failure) => Err(SonosClientError::Http(failure)),
    }
}

/// The rooms in the reply to a request for the topology.
pub fn read_zone_group_state(reply: Result<String, HttpFailure>) -> (r: Result<
    Vec<ZoneGroupMember>,
    SonosClientError,
>)
    ensures
        match reply {
            Ok(body) => r is Ok && topology::member_states(r->Ok_0@) == topology::members_in(
                topology::xml_events(body@),
                None,
            ),
            Err(failure) => r == Err::<Vec<ZoneGroupMember>, SonosClientError>(
                SonosClientError::Http(failure),
            ),
        },
{
    match reply {
        Ok(body) => Ok(parse_zone_group_state(body.as_str())),
        Err(failure) => Err(SonosClientError::Http(failure)),
    }
}

// ---------------------------------------------------------------------------
// Laws
// ---------------------------------------------------------------------------
/// Every request goes to the path of the action's service at the player, and
/// names its action in the header. There is one unless the path cannot be joined.
pub proof fn transport_requests_name_their_action(
    client: &SonosClient,
    play: Result<SoapRequest, SonosClientError>,
    pause: Result<SoapRequest, SonosClientError>,
    stop: Result<SoapRequest, SonosClientError>,
    leave: Result<SoapRequest, SonosClientError>,
)
    requires
        call_ensures(SonosClient::play, (client,), play),
        call_ensures(SonosClient::pause, (client,), pause),
        call_ensures(SonosClient::stop, (client,), stop),
        call_ensures(SonosClient::become_coordinator_of_standalone_group, (client,), leave),
    ensures
        is_sent(
            play,
            client.base(),
            "/MediaRenderer/AVTransport/Control"@,
            "\"urn:schemas-upnp-org:service:AVTransport:1#Play\""@,
        ),
        is_sent(
            pause,
            client.base(),
            "/MediaRenderer/AVTransport/Control"@,
            "\"urn:schemas-upnp-org:service:AVTransport:1#Pause\""@,
        ),
        is_sent(
            stop,
            client.base(),
            "/MediaRenderer/AVTransport/Control"@,
            "\"urn:schemas-upnp-org:service:AVTransport:1#Stop\""@,
        ),
        is_sent(
            leave,
            client.base(),
            "/MediaRenderer/AVTransport/Control"@,
            "\"urn:schemas-upnp-org:service:AVTransport:1#BecomeCoordinatorOfStandaloneGroup\""@,
        ),
{
    reveal_strlit("\"");
    reveal_strlit("#");
    reveal_strlit("urn:schemas-upnp-org:service:AVTransport:1");
    reveal_strlit("Play");
    reveal_strlit("Pause");
    reveal_strlit("Stop");
    reveal_strlit("BecomeCoordinatorOfStandaloneGroup");
    reveal_strlit("\"urn:schemas-upnp-org:service:AVTransport:1#Play\"");
    reveal_strlit("\"urn:schemas-upnp-org:service:AVTransport:1#Pause\"");
    reveal_strlit("\"urn:schemas-upnp-org:service:AVTransport:1#Stop\"");
    reveal_strlit(
        "\"urn:schemas-upnp-org:service:AVTransport:1#BecomeCoordinatorOfStandaloneGroup\"",
    );
    assert(soap::header_text(SoapService::AvTransport, "Play"@)
        =~= "\"urn:schemas-upnp-org:service:AVTransport:1#Play\""@);
    assert(soap::header_text(SoapService::AvTransport, "Pause"@)
        =~= "\"urn:schemas-upnp-org:service:AVTransport:1#Pause\""@);
    assert(soap::header_text(SoapService::AvTransport, "Stop"@)
        =~= "\"urn:schemas-upnp-org:service:AVTransport:1#Stop\""@);
    assert(soap::header_text(SoapService::AvTransport, "BecomeCoordinatorOfStandaloneGroup"@)
        =~= "\"urn:schemas-upnp-org:service:AVTransport:1#BecomeCoordinatorOfStandaloneGroup\""@);
}

/// Whether a request goes to a path below a base with a header, or else the path
/// cannot be joined.
pub open spec fn is_sent(
    r: Result<SoapRequest, SonosClientError>,
    base: Seq<char>,
    path: Seq<char>,
    header: Seq<char>,
) -> bool {
    match r {
        Ok(request) => web::joined_url(base, path) == Some(request.url@) && request.soap_action@
            == header && request.content_type@ == "text/xml; charset=\"utf-8\""@,
        Err(error) => error is Url && web::joined_url(base, path) is None,
    }
}

/// A stream and the title under which it is shown are handed to a player with all
/// marks of XML escaped, and the title is escaped once more within its own
/// description.
pub proof fn streams_are_handed_over_escaped(
    client: &SonosClient,
    uri: &str,
    title: &str,
    r: Result<SoapRequest, SonosClientError>,
)
    requires
        call_ensures(SonosClient::set_av_transport_uri, (client, uri, title), r),
    ensures
        r matches Ok(request) ==> exists|head: Seq<char>, middle: Seq<char>, tail: Seq<char>|
            request.body@ == #[trigger] (head + ("<CurrentURI>"@ + soap::escaped(uri@)
                + "</CurrentURI>"@) + middle + ("<CurrentURIMetaData>"@ + soap::escaped(
                soap::metadata_text(title@),
            ) + "</CurrentURIMetaData>"@) + tail),
{
    if let Ok(request) = r {
        reveal_strlit("      <InstanceID>0</InstanceID>\n      <CurrentURI>");
        reveal_strlit("<CurrentURI>");
        reveal_strlit("</CurrentURI>\n      <CurrentURIMetaData>");
        reveal_strlit("</CurrentURI>");
        reveal_strlit("<CurrentURIMetaData>");
        let lead = "      <InstanceID>0</InstanceID>\n      <CurrentURI>"@;
        let between = "</CurrentURI>\n      <CurrentURIMetaData>"@;
        let n = lead.len() - "<CurrentURI>"@.len();
        let a = "</CurrentURI>"@.len() as int;
        let b = between.len() - "<CurrentURIMetaData>"@.len();
        let middle = between.subrange(a, b);
        assert(lead =~= lead.take(n) + "<CurrentURI>"@);
        assert(between =~= "</CurrentURI>"@ + middle + "<CurrentURIMetaData>"@);
        let first = "<CurrentURI>"@ + soap::escaped(uri@) + "</CurrentURI>"@;
        let second = "<CurrentURIMetaData>"@ + soap::escaped(soap::metadata_text(title@))
            + "</CurrentURIMetaData>"@;
        let inner = soap::transport_uri_arguments(uri@, soap::metadata_text(title@));
        assert(inner =~= lead.take(n) + first + middle + second);
        let urn = SoapService::AvTransport.urn_text();
        let before = "<?xml version=\"1.0\" encoding=\"utf-8\"?>\n<s:Envelope xmlns:s=\"http://schemas.xmlsoap.org/soap/envelope/\" s:encodingStyle=\"http://schemas.xmlsoap.org/soap/encoding/\">\n  <s:Body>\n    <u:"@
            + "SetAVTransportURI"@ + " xmlns:u=\""@ + urn + "\">\n"@;
        let after = "\n    </u:"@ + "SetAVTransportURI"@ + ">\n  </s:Body>\n</s:Envelope>"@;
        assert(request.body@ =~= before + inner + after);
        assert(request.body@ =~= (before + lead.take(n)) + first + middle + second + after);
    }
}

/// A volume above a hundred is refused before it is sent.
pub proof fn volumes_are_checked_before_they_are_sent(
    client: &SonosClient,
    volume: u8,
    r: Result<SoapRequest, SonosClientError>,
)
    requires
        call_ensures(SonosClient::set_volume, (client, volume), r),
    ensures
        volume > 100 ==> (r matches Err(SonosClientError::Soap(SoapBuildError::VolumeOutOfRange(v)))
            && v == volume),
        volume <= 100 ==> (r is Ok <==> web::joined_url(
            client.base(),
            "/MediaRenderer/RenderingControl/Control"@,
        ) is Some),
{
}

/// An answer is read for what was asked; a failed exchange is reported as it is,
/// and only a failure to answer in time counts as one.
pub proof fn failed_exchanges_are_reported(
    failure: HttpFailure,
    done: Result<(), SonosClientError>,
    volume: Result<u8, SonosClientError>,
    topology: Result<Vec<ZoneGroupMember>, SonosClientError>,
    error: &SonosClientError,
    timeout: bool,
)
    requires
        call_ensures(read_done, (Err::<String, HttpFailure>(failure),), done),
        call_ensures(read_volume, (Err::<String, HttpFailure>(failure),), volume),
        call_ensures(read_zone_group_state, (Err::<String, HttpFailure>(failure),), topology),
        call_ensures(SonosClientError::is_timeout, (error,), timeout),
    ensures
        done matches Err(SonosClientError::Http(f)) && f == failure,
        volume matches Err(SonosClientError::Http(f)) && f == failure,
        topology matches Err(SonosClientError::Http(f)) && f == failure,
        error matches SonosClientError::Http(f) ==> (timeout <==> f.timeout),
        !(error is Http) ==> !timeout,
{
}

/// The other requests, too, go to the path of their service and name their
/// action.
pub proof fn other_requests_name_their_action(
    client: &SonosClient,
    uri: &str,
    title: &str,
    point: Result<SoapRequest, SonosClientError>,
    volume: Result<SoapRequest, SonosClientError>,
    topology: Result<SoapRequest, SonosClientError>,
)
    requires
        call_ensures(SonosClient::set_av_transport_uri, (client, uri, title), point),
        call_ensures(SonosClient::get_volume, (client,), volume),
        call_ensures(SonosClient::get_zone_group_state, (client,), topology),
    ensures
        is_sent(
            point,
            client.base(),
            "/MediaRenderer/AVTransport/Control"@,
            "\"urn:schemas-upnp-org:service:AVTransport:1#SetAVTransportURI\""@,
        ),
        is_sent(
            volume,
            client.base(),
            "/MediaRenderer/RenderingControl/Control"@,
            "\"urn:schemas-upnp-org:service:RenderingControl:1#GetVolume\""@,
        ),
        is_sent(
            topology,
            client.base(),
            "/ZoneGroupTopology/Control"@,
            "\"urn:schemas-upnp-org:service:ZoneGroupTopology:1#GetZoneGroupState\""@,
        ),
{
    reveal_strlit("\"");
    reveal_strlit("#");
    reveal_strlit("urn:schemas-upnp-org:service:AVTransport:1");
    reveal_strlit("urn:schemas-upnp-org:service:RenderingControl:1");
    reveal_strlit("urn:schemas-upnp-org:service:ZoneGroupTopology:1");
    reveal_strlit("SetAVTransportURI");
    reveal_strlit("GetVolume");
    reveal_strlit("GetZoneGroupState");
    reveal_strlit("\"urn:schemas-upnp-org:service:AVTransport:1#SetAVTransportURI\"");
    reveal_strlit("\"urn:schemas-upnp-org:service:RenderingControl:1#GetVolume\"");
    reveal_strlit("\"urn:schemas-upnp-org:service:ZoneGroupTopology:1#GetZoneGroupState\"");
    assert(soap::header_text(SoapService::AvTransport, "SetAVTransportURI"@)
        =~= "\"urn:schemas-upnp-org:service:AVTransport:1#SetAVTransportURI\""@);
    assert(soap::header_text(SoapService::RenderingControl, "GetVolume"@)
        =~= "\"urn:schemas-upnp-org:service:RenderingControl:1#GetVolume\""@);
    assert(soap::header_text(SoapService::ZoneGroupTopology, "GetZoneGroupState"@)
        =~= "\"urn:schemas-upnp-org:service:ZoneGroupTopology:1#GetZoneGroupState\""@);
}

} // verus!
