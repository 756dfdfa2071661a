use std::collections::BTreeMap;

use airsonos2::client::{
    read_done, read_volume, read_zone_group_state, HttpFailure, SonosClient, SonosClientError,
    SoapRequest, REQUEST_CONTENT_TYPE,
};
use airsonos2::discovery::{
    announced_device, device_description_url, drop_repeats, enrich_zones, location_host,
    merge_devices,
    parse_ssdp_location, sort_by_location, static_devices, zone_from_description, DeviceSet,
    DiscoveredDevice, SSDP_REQUEST,
};
use airsonos2::net::IpAddr;
use airsonos2::soap::{
    become_standalone_body, envelope, escape_xml, get_volume_body, get_zone_group_state_body,
    parse_get_volume_response, pause_body, play_body, set_av_transport_uri_body,
    set_av_transport_uri_metadata, set_volume_body, stop_body, SoapAction, SoapBuildError,
    SoapService,
};
use airsonos2::topology::{members_of, parse_zone_group_state, XmlEvent, ZoneGroupMember};
use airsonos2::xml::{
    parse_device_description, DeviceDescription, DeviceDescriptionError, DeviceFields,
};

fn v4(last: u8) -> IpAddr {
    IpAddr::V4(0xC000_0200 + last as u32)
}

fn v6(last: u128) -> IpAddr {
    IpAddr::V6(0x2001_0db8_0000_0000_0000_0000_0000_0000 + last)
}

#[test]
fn generates_set_transport_uri_request() {
    let body = set_av_transport_uri_body(
        "http://192.0.2.10:7000/streams/a.mp3",
        &set_av_transport_uri_metadata("Kitchen & Office"),
    );

    assert!(body.contains("<u:SetAVTransportURI"));
    assert!(body.contains("http://192.0.2.10:7000/streams/a.mp3"));
    assert!(body.contains("Kitchen &amp;amp; Office"));
}

#[test]
fn set_volume_rejects_out_of_range_values() {
    assert!(set_volume_body(100).is_ok());
    assert_eq!(
        set_volume_body(101),
        Err(SoapBuildError::VolumeOutOfRange(101))
    );
    assert_eq!(
        SoapBuildError::VolumeOutOfRange(101).message(),
        "volume must be in 0..=100, got 101"
    );
}

#[test]
fn parses_get_volume_response() {
    let xml = r#"<?xml version="1.0" ?>
<s:Envelope xmlns:s="http://schemas.xmlsoap.org/soap/envelope/" s:encodingStyle="http://schemas.xmlsoap.org/soap/encoding/">
<s:Body>
<u:GetVolumeResponse xmlns:u="urn:schemas-upnp-org:service:RenderingControl:1">
<CurrentVolume>42</CurrentVolume>
</u:GetVolumeResponse>
</s:Body>
</s:Envelope>"#;

    assert_eq!(parse_get_volume_response(xml), Some(42));
}

#[test]
fn volumes_are_percentages() {
    let reply = |volume: &str| format!("<CurrentVolume>{volume}</CurrentVolume>");
    assert_eq!(parse_get_volume_response(&reply(" 100\n")), Some(100));
    assert_eq!(parse_get_volume_response(&reply("+7")), Some(7));
    assert_eq!(parse_get_volume_response(&reply("101")), None);
    assert_eq!(parse_get_volume_response(&reply("")), None);
    assert_eq!(parse_get_volume_response(&reply("-1")), None);
    assert_eq!(parse_get_volume_response("<CurrentVolume>1"), None);
    assert_eq!(parse_get_volume_response("1</CurrentVolume>"), None);
    assert_eq!(
        parse_get_volume_response("</CurrentVolume><CurrentVolume>5</CurrentVolume>"),
        Some(5)
    );
}

#[test]
fn soap_action_header_matches_sonos_format() {
    assert_eq!(
        SoapAction::play().soap_action_header(),
        "\"urn:schemas-upnp-org:service:AVTransport:1#Play\""
    );
}

#[test]
fn generates_pause_request() {
    let body = pause_body();

    assert!(body.contains("<u:Pause"));
    assert!(body.contains("<InstanceID>0</InstanceID>"));
    assert_eq!(
        SoapAction::pause().soap_action_header(),
        "\"urn:schemas-upnp-org:service:AVTransport:1#Pause\""
    );
}

#[test]
fn envelopes_have_their_exact_text() {
    assert_eq!(
        stop_body(),
        r#"<?xml version="1.0" encoding="utf-8"?>
<s:Envelope xmlns:s="http://schemas.xmlsoap.org/soap/envelope/" s:encodingStyle="http://schemas.xmlsoap.org/soap/encoding/">
  <s:Body>
    <u:Stop xmlns:u="urn:schemas-upnp-org:service:AVTransport:1">
      <InstanceID>0</InstanceID>
    </u:Stop>
  </s:Body>
</s:Envelope>"#
    );
    assert_eq!(get_zone_group_state_body(), envelope(SoapAction::get_zone_group_state(), ""));
    assert!(play_body().contains("\n      <InstanceID>0</InstanceID>\n      <Speed>1</Speed>\n"));
    assert!(become_standalone_body().contains("<u:BecomeCoordinatorOfStandaloneGroup "));
    assert!(get_volume_body().contains("<Channel>Master</Channel>"));
    assert!(set_volume_body(7)
        .expect("body")
        .contains("<DesiredVolume>7</DesiredVolume>"));
    assert_eq!(
        SoapService::ZoneGroupTopology.control_path(),
        "/ZoneGroupTopology/Control"
    );
    assert_eq!(
        SoapService::RenderingControl.urn(),
        "urn:schemas-upnp-org:service:RenderingControl:1"
    );
}

#[test]
fn markup_is_escaped() {
    assert_eq!(escape_xml("plain"), "plain");
    assert_eq!(
        escape_xml("<a href=\"x\">'&amp;'</a>"),
        "&lt;a href=&quot;x&quot;&gt;&apos;&amp;amp;&apos;&lt;/a&gt;"
    );
}

const TOPOLOGY: &str = r#"
        <ZoneGroups>
          <ZoneGroup Coordinator="RINCON_KITCHEN" ID="RINCON_KITCHEN:1">
            <ZoneGroupMember UUID="RINCON_KITCHEN" ZoneName="Kitchen" Location="http://192.0.2.1:1400/xml/device_description.xml" Invisible="0" />
            <ZoneGroupMember UUID="RINCON_OFFICE" ZoneName="Office" Location="http://192.0.2.2:1400/xml/device_description.xml" Invisible="1" />
          </ZoneGroup>
        </ZoneGroups>
        "#;

#[test]
fn parses_zone_group_state_members_and_coordinator() {
    let members = parse_zone_group_state(TOPOLOGY);

    assert_eq!(members.len(), 2);
    assert!(members[0].is_group_coordinator);
    assert!(members[0].is_visible_room);
    assert!(!members[1].is_visible_room);
}

#[test]
fn topologies_are_read_in_full() {
    let members = parse_zone_group_state(TOPOLOGY);
    assert_eq!(members[1].uuid, "RINCON_OFFICE");
    assert_eq!(members[1].zone_name, "Office");
    assert_eq!(
        members[1].location.as_deref(),
        Some("http://192.0.2.2:1400/xml/device_description.xml")
    );
    assert!(!members[1].is_group_coordinator);
    assert!(parse_zone_group_state("").is_empty());
    let broken = parse_zone_group_state("<ZoneGroupMember UUID=\"A\"/></wrong>");
    assert_eq!(broken.len(), 1);
    let bare = parse_zone_group_state("<ZoneGroup/><ZoneGroupMember></ZoneGroupMember>");
    assert_eq!(
        bare,
        vec![ZoneGroupMember {
            uuid: String::new(),
            zone_name: String::new(),
            location: None,
            is_visible_room: true,
            is_group_coordinator: false,
        }]
    );
}

#[test]
fn malformed_attributes_are_passed_over() {
    let element = |name: &[u8], attributes: Vec<Option<(&[u8], &[u8])>>| XmlEvent::Element {
        name: name.to_vec(),
        attributes: attributes
            .into_iter()
            .map(|a| a.map(|(k, v)| (k.to_vec(), v.to_vec())))
            .collect(),
    };
    let events = vec![
        element(b"ZoneGroup", vec![Some((b"Coordinator", b"A"))]),
        XmlEvent::Other,
        element(
            b"ZoneGroupMember",
            vec![None, Some((b"UUID", b"A")), Some((b"UUID", b"B"))],
        ),
        XmlEvent::End,
        element(b"ZoneGroupMember", vec![]),
    ];
    let members = members_of(&events);
    assert_eq!(members.len(), 1);
    assert_eq!(members[0].uuid, "A");
    assert!(members[0].is_group_coordinator);
}

const DESCRIPTION: &str = r#"
        <root>
          <device>
            <friendlyName>Kitchen</friendlyName>
            <roomName>Kitchen</roomName>
            <modelName>Sonos Play:1</modelName>
            <UDN>uuid:RINCON_000E58AAAAAA01400</UDN>
          </device>
        </root>
        "#;

fn fields(xml: &str) -> Result<Option<DeviceFields>, String> {
    let root: BTreeMap<String, BTreeMap<String, String>> =
        quick_xml::de::from_str(xml).map_err(|error| error.to_string())?;
    Ok(root.get("device").map(|device| DeviceFields {
        friendly_name: device.get("friendlyName").cloned(),
        room_name: device.get("roomName").cloned(),
        model_name: device.get("modelName").cloned(),
        udn: device.get("UDN").cloned(),
    }))
}

#[test]
fn parses_sonos_device_description() {
    let description =
        parse_device_description(fields(DESCRIPTION), IpAddr::V4(0xC000_020B)).expect("description");

    assert_eq!(description.room_name, "Kitchen");
    assert_eq!(description.model_name, "Sonos Play:1");
    assert_eq!(description.rincon_id(), "RINCON_000E58AAAAAA01400");
    assert_eq!(description.base_url.as_str(), "http://192.0.2.11:1400/");
}

#[test]
fn builds_bracketed_base_url_for_ipv6() {
    let description =
        parse_device_description(fields(DESCRIPTION), v6(0x11)).expect("description");

    assert_eq!(description.base_url.as_str(), "http://[2001:db8::11]:1400/");
}

#[test]
fn incomplete_descriptions_are_refused() {
    let full = || DeviceFields {
        friendly_name: Some("Friendly".to_owned()),
        room_name: Some("Room".to_owned()),
        model_name: Some("Model".to_owned()),
        udn: Some("uuid:uuid:X".to_owned()),
    };
    let read = |fields| parse_device_description(Ok(Some(fields)), v4(1));
    assert_eq!(read(full()).expect("description").rincon_id(), "X");
    let mut friendly = full();
    friendly.room_name = None;
    assert_eq!(read(friendly).expect("description").room_name, "Friendly");
    let mut nameless = full();
    nameless.room_name = None;
    nameless.friendly_name = None;
    nameless.model_name = None;
    assert!(matches!(
        read(nameless),
        Err(DeviceDescriptionError::MissingField("roomName"))
    ));
    let mut modelless = full();
    modelless.model_name = None;
    assert!(matches!(
        read(modelless),
        Err(DeviceDescriptionError::MissingField("modelName"))
    ));
    let mut anonymous = full();
    anonymous.udn = None;
    assert!(matches!(
        read(anonymous),
        Err(DeviceDescriptionError::MissingField("UDN"))
    ));
    assert!(matches!(
        parse_device_description(Ok(None), v4(1)),
        Err(DeviceDescriptionError::MissingDevice)
    ));
    assert!(matches!(
        parse_device_description(fields("<root"), v4(1)),
        Err(DeviceDescriptionError::Parse(_))
    ));
}

#[test]
fn client_url_formats_ipv6_literals() {
    let client = SonosClient::new(v6(0x10)).expect("client");

    assert_eq!(client.base_url(), "http://[2001:db8::10]:1400/");
}

#[test]
fn clients_build_whole_requests() {
    let client = SonosClient::new(v4(10)).expect("client");
    assert_eq!(
        client.play().expect("request"),
        SoapRequest {
            url: "http://192.0.2.10:1400/MediaRenderer/AVTransport/Control".to_owned(),
            soap_action: "\"urn:schemas-upnp-org:service:AVTransport:1#Play\"".to_owned(),
            content_type: "text/xml; charset=\"utf-8\"".to_owned(),
            body: play_body(),
        }
    );
    assert_eq!(REQUEST_CONTENT_TYPE, "text/xml; charset=\"utf-8\"");
    assert_eq!(client.stop().expect("request").body, stop_body());
    assert_eq!(client.pause().expect("request").body, pause_body());
    assert_eq!(
        client
            .become_coordinator_of_standalone_group()
            .expect("request")
            .body,
        become_standalone_body()
    );
    let volume = client.set_volume(30).expect("request");
    assert_eq!(
        volume.url,
        "http://192.0.2.10:1400/MediaRenderer/RenderingControl/Control"
    );
    assert_eq!(volume.body, set_volume_body(30).expect("body"));
    assert!(matches!(
        client.set_volume(101),
        Err(SonosClientError::Soap(SoapBuildError::VolumeOutOfRange(101)))
    ));
    assert_eq!(client.get_volume().expect("request").body, get_volume_body());
    assert_eq!(
        client.get_zone_group_state().expect("request").url,
        "http://192.0.2.10:1400/ZoneGroupTopology/Control"
    );
    let uri = client
        .set_av_transport_uri("http://x/?a=1&b=2", "Den")
        .expect("request");
    assert!(uri.body.contains("<CurrentURI>http://x/?a=1&amp;b=2</CurrentURI>"));
    assert!(matches!(
        SonosClient::from_base_url("no url"),
        Err(SonosClientError::Url(_))
    ));
}

#[test]
fn replies_are_read() {
    let failure = |timeout| HttpFailure {
        message: "broken".to_owned(),
        timeout,
    };
    assert!(read_done(Ok(String::new())).is_ok());
    assert!(read_done(Err(failure(true))).expect_err("failure").is_timeout());
    assert!(!read_done(Err(failure(false))).expect_err("failure").is_timeout());
    assert_eq!(
        read_volume(Ok("<CurrentVolume>9</CurrentVolume>".to_owned())).expect("volume"),
        9
    );
    assert!(matches!(
        read_volume(Ok("<html/>".to_owned())),
        Err(SonosClientError::UnexpectedGetVolumeResponse)
    ));
    assert!(matches!(
        read_volume(Err(failure(false))),
        Err(SonosClientError::Http(_))
    ));
    assert_eq!(
        read_zone_group_state(Ok(TOPOLOGY.to_owned()))
            .expect("topology")
            .len(),
        2
    );
    assert!(read_zone_group_state(Err(failure(false))).is_err());
}

#[test]
fn parses_case_insensitive_ssdp_location() {
    let response =
        b"HTTP/1.1 200 OK\r\nLOCATION: http://192.0.2.4:1400/xml/device_description.xml\r\n\r\n";

    let location = parse_ssdp_location(response).expect("location");

    assert_eq!(location, "http://192.0.2.4:1400/xml/device_description.xml");
}

#[test]
fn answers_are_searched_line_by_line() {
    assert_eq!(
        parse_ssdp_location(b"x: 1\nLocation:\t a b \nlocation: c").as_deref(),
        Some("a b")
    );
    assert_eq!(parse_ssdp_location(b"\xff\xfe\nlOcAtIoN:x").as_deref(), Some("x"));
    assert_eq!(parse_ssdp_location(b"location"), None);
    assert_eq!(parse_ssdp_location(b" location: x"), None);
    assert_eq!(parse_ssdp_location(b""), None);
    assert!(SSDP_REQUEST.starts_with("M-SEARCH * HTTP/1.1\r\nHOST: 239.255.255.250:1900\r\n"));
    assert!(SSDP_REQUEST.ends_with("ST: urn:schemas-upnp-org:device:ZonePlayer:1\r\n\r\n"));
}

#[test]
fn builds_device_description_url_for_static_ip() {
    let url = device_description_url(IpAddr::V4(0xC000_020A)).expect("url");

    assert_eq!(
        url.as_str(),
        "http://192.0.2.10:1400/xml/device_description.xml"
    );
}

#[test]
fn builds_device_description_url_for_static_ipv6() {
    let url = device_description_url(v6(0x10)).expect("url");

    assert_eq!(
        url.as_str(),
        "http://[2001:db8::10]:1400/xml/device_description.xml"
    );
}

fn device(location: &str, ip: IpAddr) -> DiscoveredDevice {
    DiscoveredDevice {
        location: location.to_owned(),
        ip,
    }
}

#[test]
fn hosts_are_taken_from_locations() {
    let host = |location: &str| location_host(location).expect("url");
    assert_eq!(host("http://192.0.2.4:1400/x").as_deref(), Some("192.0.2.4"));
    assert_eq!(host("http://Player.Local/x").as_deref(), Some("player.local"));
    assert_eq!(host("http://[2001:DB8::1]/").as_deref(), Some("[2001:db8::1]"));
    assert_eq!(host("data:x"), None);
    assert!(location_host("x").is_err());
}

#[test]
fn answers_become_devices() {
    let found = announced_device("http://192.0.2.4:1400/x", Some(v4(4)), v4(9)).expect("device");
    assert_eq!(found, device("http://192.0.2.4:1400/x", v4(4)));
    let named = announced_device("HTTP://Player.local", None, v4(9)).expect("device");
    assert_eq!(named, device("http://player.local/", v4(9)));
    assert!(announced_device("x", None, v4(9)).is_err());
}

#[test]
fn devices_are_noted_once_and_in_order() {
    let mut set = DeviceSet::new();
    set.insert(device("b", v4(1)));
    set.insert(device("a", v6(1)));
    set.insert(device("a", v4(2)));
    set.insert(device("b", v4(1)));
    assert_eq!(
        set.into_devices(),
        vec![device("a", v4(2)), device("a", v6(1)), device("b", v4(1))]
    );
}

#[test]
fn devices_are_merged_by_location_and_address() {
    let configured = static_devices(&[v4(1), v4(3)]).expect("devices");
    assert_eq!(
        configured[1].location,
        "http://192.0.2.3:1400/xml/device_description.xml"
    );
    let found = vec![
        device("http://192.0.2.1:1400/xml/device_description.xml", v4(1)),
        device("http://192.0.2.0:1400/a", v4(9)),
    ];
    let merged = merge_devices(found, configured);
    let ips: Vec<IpAddr> = merged.iter().map(|d| d.ip).collect();
    assert_eq!(ips, vec![v4(9), v4(1), v4(3)]);
    let sorted = sort_by_location(vec![
        device("b", v4(1)),
        device("a", v4(2)),
        device("a", v4(1)),
    ]);
    assert_eq!(
        sorted,
        vec![device("a", v4(2)), device("a", v4(1)), device("b", v4(1))]
    );
    // The middle one repeats the location of the first, the last one the
    // address of the middle one, which is gone.
    assert_eq!(
        drop_repeats(&sorted),
        vec![device("a", v4(2)), device("b", v4(1))]
    );
    assert!(drop_repeats(&Vec::new()).is_empty());
}

#[test]
fn zones_learn_from_the_topology() {
    let zone = |udn: &str| {
        zone_from_description(
            DeviceDescription {
                room_name: "Old".to_owned(),
                model_name: "One".to_owned(),
                udn: udn.to_owned(),
                base_url: String::new(),
            },
            v4(1),
        )
    };
    let member = |uuid: &str, name: &str, visible: bool| ZoneGroupMember {
        uuid: uuid.to_owned(),
        zone_name: name.to_owned(),
        location: None,
        is_visible_room: visible,
        is_group_coordinator: true,
    };
    let zones = vec![zone("uuid:A"), zone("uuid:B"), zone("uuid:C")];
    assert_eq!(zones[0].id.as_str(), "A");
    assert!(zones[0].is_visible_room && !zones[0].is_group_coordinator);
    let topology = vec![
        member("A", "First", true),
        member("A", "Second", false),
        member("B", "", true),
    ];
    let enriched = enrich_zones(&zones, &topology);
    assert_eq!(enriched[0].room_name, "Second");
    assert!(!enriched[0].is_visible_room && enriched[0].is_group_coordinator);
    assert_eq!(enriched[1].room_name, "Old");
    assert!(enriched[1].is_group_coordinator);
    assert_eq!(enriched[2], zones[2]);
}
