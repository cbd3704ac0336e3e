use up_transport_iceoryx2_rust::service_name_mapping::{
    authority_name_on, compute_exact_source_publish_subscribe_service_name, compute_service_name,
    compute_service_name_on, get_authority_name, host_authority, local_authority,
    MessagingPattern,
};
use up_transport_iceoryx2_rust::text::{encode_hex, parse_hex_u16, parse_hex_u8};
use up_transport_iceoryx2_rust::uuri::{sink_matches, ExactUUri, UUri, UUriError};
use up_transport_iceoryx2_rust::{Iceoryx2PubSub, UCode};

fn test_uri(authority: &str, instance: u16, typ: u16, version: u8, resource: u16) -> UUri {
    let entity_id = ((instance as u32) << 16) | (typ as u32);
    UUri::try_from_parts(authority, entity_id, version, resource).unwrap()
}

fn raw_uri(authority: &str, entity_id: u32, version: u8, resource: u16) -> UUri {
    UUri {
        authority_name: authority.to_string(),
        ue_id: entity_id,
        ue_version_major: version,
        resource_id: resource,
    }
}

#[test]
fn publish_service_name_uses_source_uri() {
    let source = test_uri("device1", 0, 0x10ab, 3, 0x7fff);
    let name = compute_service_name(&source, None, MessagingPattern::PublishSubscribe).unwrap();
    assert_eq!(name.as_str(), "up/device1/10AB/0/3/7FFF");
}

#[test]
fn request_service_name_uses_sink_method_uri() {
    let reply_to = test_uri("client", 0, 0x10ab, 3, 0x0000);
    let method = test_uri("service", 0, 0x20bc, 1, 0x1000);
    let name =
        compute_service_name(&reply_to, Some(&method), MessagingPattern::PublishSubscribe).unwrap();
    assert_eq!(name.as_str(), "up/service/20BC/0/1/1000");
}

#[test]
fn response_service_name_uses_source_and_sink_uri() {
    let method = test_uri("service", 0, 0x20bc, 1, 0x1000);
    let reply_to = test_uri("client", 0, 0x10ab, 3, 0x0000);
    let name =
        compute_service_name(&method, Some(&reply_to), MessagingPattern::PublishSubscribe).unwrap();
    assert_eq!(name.as_str(), "up/service/20BC/0/1/1000/client/10AB/0/3/0");
}

#[test]
fn notification_service_name_uses_source_and_sink_uri() {
    let source = test_uri("device1", 0, 0x10ab, 3, 0x8000);
    let sink = test_uri("client", 0, 0x20bc, 1, 0x0000);
    let name =
        compute_service_name(&source, Some(&sink), MessagingPattern::PublishSubscribe).unwrap();
    assert_eq!(name.as_str(), "up/device1/10AB/0/3/8000/client/20BC/0/1/0");
}

#[test]
fn exact_publish_service_name_requires_exact_source_proof() {
    let source = ExactUUri::try_from(test_uri("device1", 0, 0x10ab, 3, 0x7fff)).unwrap();
    let name = compute_exact_source_publish_subscribe_service_name(&source).unwrap();
    assert_eq!(name.as_str(), "up/device1/10AB/0/3/7FFF");
}

#[test]
fn exact_publish_service_name_rejects_wildcard_source_before_mapping() {
    let wildcard = UUri::try_from_parts("device1", 0x10ab, 3, 0xffff).unwrap();
    assert!(ExactUUri::try_from(wildcard).is_err());
}

#[test]
fn exact_source_service_name_helper_requires_exact_uuri() {
    let topic = UUri::try_from_parts("iox-r19-exact-service-name-7", 0x4210, 0x01, 0x9000).unwrap();
    let source = ExactUUri::try_from(topic).expect("exact source");
    let name =
        Iceoryx2PubSub::exact_source_publish_subscribe_service_name(&source).expect("service name");
    assert!(name.starts_with("up/iox-r19-exact-service-name-"));
    assert!(name.ends_with("/4210/0/1/9000"));
}

#[test]
fn exact_source_service_name_helper_rejects_wildcard_before_mapping() {
    let wildcard = UUri::try_from_parts("vehicle", 0x4210, 0x01, 0xFFFF).unwrap();
    assert!(ExactUUri::try_from(wildcard).is_err());
}

#[test]
fn helper_names_the_service_of_source_and_sink() {
    let source = test_uri("device1", 2, 0x10ab, 3, 0x8000);
    let sink = test_uri("client", 0, 0x20bc, 1, 0x0000);
    assert_eq!(
        Iceoryx2PubSub::publish_subscribe_service_name(&source, Some(&sink)).unwrap(),
        "up/device1/10AB/2/3/8000/client/20BC/0/1/0"
    );
}

#[test]
fn every_other_pair_of_resources_has_no_service() {
    let method = test_uri("a", 0, 1, 1, 0x0001);
    let event = test_uri("a", 0, 1, 1, 0x8000);
    let reply = test_uri("b", 0, 1, 1, 0x0000);
    for (source, sink) in [(&method, &method), (&event, &method), (&reply, &reply), (&event, &event)]
    {
        let status =
            compute_service_name(source, Some(sink), MessagingPattern::PublishSubscribe).unwrap_err();
        assert_eq!(status.get_code(), UCode::InvalidArgument);
        assert_eq!(
            status.message(),
            "could not determine a valid UMessageType from the provided UUri(s)"
        );
    }
}

#[test]
fn other_messaging_patterns_have_no_service() {
    let source = test_uri("a", 0, 1, 1, 0x8000);
    for pattern in [
        MessagingPattern::Event,
        MessagingPattern::RequestResponse,
        MessagingPattern::Blackboard,
    ] {
        assert_eq!(
            compute_service_name(&source, None, pattern).unwrap_err().get_code(),
            UCode::InvalidArgument
        );
    }
}

#[test]
fn publishing_needs_an_authority() {
    let source = raw_uri("", 1, 1, 0x8000);
    assert!(compute_service_name(&source, None, MessagingPattern::PublishSubscribe).is_err());
}

#[test]
fn empty_authority_stands_for_the_host() {
    let source = raw_uri("", 0x10ab, 3, 0x8000);
    let sink = raw_uri("client", 0x20bc, 1, 0);
    assert_eq!(
        compute_service_name_on(
            &source,
            Some(&sink),
            MessagingPattern::PublishSubscribe,
            "box7"
        )
        .unwrap(),
        "up/box7/10AB/0/3/8000/client/20BC/0/1/0"
    );
    assert_eq!(authority_name_on(&source, "box7"), "box7");
    assert_eq!(authority_name_on(&sink, "box7"), "client");
    assert_eq!(host_authority(None), "unknown");
    assert_eq!(host_authority(Some("box7".to_string())), "box7");
    assert_eq!(get_authority_name(&sink), "client");
    assert_eq!(get_authority_name(&source), local_authority());
    assert!(!local_authority().is_empty());
}

#[test]
fn host_does_not_matter_beside_authorities() {
    let source = raw_uri("device1", 0x10ab, 3, 0x8000);
    let sink = raw_uri("client", 0x20bc, 1, 0);
    let pattern = MessagingPattern::PublishSubscribe;
    assert_eq!(
        compute_service_name_on(&source, Some(&sink), pattern, "x").unwrap(),
        compute_service_name_on(&source, Some(&sink), pattern, "y").unwrap()
    );
}

#[test]
fn overlong_service_name_is_refused() {
    let authority = "a".repeat(300);
    let status = compute_service_name(
        &raw_uri(&authority, 1, 1, 0x8000),
        None,
        MessagingPattern::PublishSubscribe,
    )
    .unwrap_err();
    assert_eq!(status.get_code(), UCode::InvalidArgument);
    assert_eq!(
        status.message(),
        format!(
            "invalid iceoryx2 service name up/{authority}/1/0/1/8000: ServiceNameError::ExceedsMaximumLength"
        )
    );
}

#[test]
fn longest_service_name_is_accepted() {
    let tail = "/1/0/1/8000".len();
    let authority = "a".repeat(255 - 3 - tail);
    let name = compute_service_name(
        &raw_uri(&authority, 1, 1, 0x8000),
        None,
        MessagingPattern::PublishSubscribe,
    )
    .unwrap();
    assert_eq!(name.len(), 255);
}

#[test]
fn service_name_with_foreign_characters_is_refused() {
    let status = compute_service_name(
        &raw_uri("gerät", 1, 1, 0x8000),
        None,
        MessagingPattern::PublishSubscribe,
    )
    .unwrap_err();
    assert_eq!(
        status.message(),
        "invalid iceoryx2 service name up/gerät/1/0/1/8000: ServiceNameError::InvalidContent"
    );
}

#[test]
fn sources_with_different_names_differ() {
    let a = test_uri("device1", 1, 0x10ab, 3, 0x7fff);
    let b = test_uri("device1", 0x10ab, 1, 3, 0x7fff);
    let pattern = MessagingPattern::PublishSubscribe;
    assert_ne!(
        compute_service_name(&a, None, pattern).unwrap(),
        compute_service_name(&b, None, pattern).unwrap()
    );
}

#[test]
fn request_name_does_not_depend_on_the_source() {
    let method = test_uri("service", 0, 0x20bc, 1, 0x1000);
    let pattern = MessagingPattern::PublishSubscribe;
    assert_eq!(
        compute_service_name(&test_uri("x", 0, 1, 1, 0), Some(&method), pattern).unwrap(),
        compute_service_name(&test_uri("y", 9, 7, 2, 0), Some(&method), pattern).unwrap()
    );
}

#[test]
fn hexadecimal_texts_are_upper_case_and_read_back() {
    assert_eq!(encode_hex(0), "0");
    assert_eq!(encode_hex(0xFFFF), "FFFF");
    assert_eq!(encode_hex(0x00A0_1B2C), "A01B2C");
    assert_eq!(encode_hex(u32::MAX), "FFFFFFFF");
    for value in [0u16, 1, 9, 10, 15, 16, 255, 256, 4096, 0xABCD, 0xFFFF] {
        assert_eq!(parse_hex_u16(&encode_hex(value as u32)), Some(value));
    }
    for value in [0u8, 7, 15, 16, 255] {
        assert_eq!(parse_hex_u8(&encode_hex(value as u32)), Some(value));
    }
}

#[test]
fn hexadecimal_parsing_agrees_with_the_standard_library() {
    for text in [
        "", "+", "-", "0", "00000000", "+1f", "1F", "1g", "ffff", "10000", "FFFFF", "-1", "++1", " 1",
        "1 ", "0x1", "100", "ff", "0ff", "é", "+é", "１",
    ] {
        assert_eq!(parse_hex_u16(text), u16::from_str_radix(text, 16).ok(), "{text}");
        assert_eq!(parse_hex_u8(text), u8::from_str_radix(text, 16).ok(), "{text}");
    }
}

#[test]
fn patterns_match_part_by_part() {
    let uri = test_uri("device1", 0x0002, 0x10ab, 3, 0x8001);
    assert!(uri.matches(&uri));
    assert!(UUri::any().matches(&uri));
    assert!(UUri::any().matches(&UUri::any()));
    assert!(raw_uri("*", 0x0002_10ab, 3, 0x8001).matches(&uri));
    assert!(raw_uri("device1", 0xFFFF_10ab, 3, 0x8001).matches(&uri));
    assert!(raw_uri("device1", 0x0002_FFFF, 3, 0x8001).matches(&uri));
    assert!(raw_uri("device1", 0x0002_10ab, 0xFF, 0x8001).matches(&uri));
    assert!(raw_uri("device1", 0x0002_10ab, 3, 0xFFFF).matches(&uri));
    assert!(!raw_uri("device2", 0x0002_10ab, 3, 0x8001).matches(&uri));
    assert!(!raw_uri("device1", 0x0003_10ab, 3, 0x8001).matches(&uri));
    assert!(!raw_uri("device1", 0x0002_10ac, 3, 0x8001).matches(&uri));
    assert!(!raw_uri("device1", 0x0002_10ab, 4, 0x8001).matches(&uri));
    assert!(!raw_uri("device1", 0x0002_10ab, 3, 0x8002).matches(&uri));
    assert!(!uri.matches(&UUri::any()));
}

#[test]
fn sink_filter_needs_a_sink_that_it_matches() {
    let sink = test_uri("client", 0, 1, 1, 0);
    let any = UUri::any();
    assert!(sink_matches(None, None));
    assert!(sink_matches(Some(&sink), None));
    assert!(!sink_matches(None, Some(&any)));
    assert!(sink_matches(Some(&sink), Some(&any)));
    assert!(sink_matches(Some(&sink), Some(&sink)));
    assert!(!sink_matches(Some(&any), Some(&sink)));
}

#[test]
fn each_wildcard_makes_a_uri_inexact() {
    assert!(raw_uri("a", 0x0001_0001, 1, 1).is_exact());
    for uri in [
        raw_uri("*", 0x0001_0001, 1, 1),
        raw_uri("a", 0xFFFF_0001, 1, 1),
        raw_uri("a", 0x0001_FFFF, 1, 1),
        raw_uri("a", 0x0001_0001, 0xFF, 1),
        raw_uri("a", 0x0001_0001, 1, 0xFFFF),
    ] {
        assert!(!uri.is_exact());
        assert_eq!(ExactUUri::try_from(uri).unwrap_err(), UUriError::Wildcard);
    }
}

#[test]
fn plain_authority_is_kept_as_it_is() {
    let longest = "a".repeat(128);
    for authority in ["device1", "my-vehicle", "a.b_c~d", "9z", "-", "_", "~", longest.as_str()] {
        let uri = UUri::try_from_parts(authority, 0x4210, 1, 0x9000).unwrap();
        assert_eq!(uri.authority_name(), authority);
    }
    assert!(UUri::try_from_parts(&"a".repeat(129), 0x4210, 1, 0x9000).is_err());
    assert!(UUri::try_from_parts("Device1", 0x4210, 1, 0x9000).is_err());
}

#[test]
fn invalid_authority_is_refused() {
    assert_eq!(
        UUri::try_from_parts("host:80", 1, 1, 1).unwrap_err(),
        UUriError::InvalidAuthority
    );
    let uri = UUri::try_from_parts("my-vehicle", 0x1010_1234, 1, 0x9a10).unwrap();
    assert_eq!(uri.authority_name(), "my-vehicle");
    assert_eq!(uri.uentity_instance_id(), 0x1010);
    assert_eq!(uri.uentity_type_id(), 0x1234);
    assert_eq!(uri.uentity_major_version(), 1);
    assert_eq!(uri.resource_id(), 0x9a10);
    assert_eq!(uri, uri.clone());
}
