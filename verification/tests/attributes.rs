use iceoryx2::prelude::AttributeSpecifier;
use iceoryx2::service::attribute::AttributeSet;
use up_transport_iceoryx2_rust::discovery::{
    check_discovered_names, discover_matching_service_names, discover_service_names,
    matching_service_names_on, DiscoveredService,
};
use up_transport_iceoryx2_rust::ports::{subscriber_access, ServiceAccess};
use up_transport_iceoryx2_rust::service_attributes::{
    attributes_match_source_filter, attributes_match_source_filter_on, source_attribute_pairs_on,
    source_attribute_verifier, source_attribute_verifier_on, source_from_attributes,
};
use up_transport_iceoryx2_rust::uuri::UUri;
use up_transport_iceoryx2_rust::{Iceoryx2PubSub, UCode};

fn uri(authority: &str, entity_id: u32, version: u8, resource: u16) -> UUri {
    UUri {
        authority_name: authority.to_string(),
        ue_id: entity_id,
        ue_version_major: version,
        resource_id: resource,
    }
}

fn attributes(pairs: &[(&str, &str)]) -> AttributeSet {
    let mut specifier = AttributeSpecifier::new();
    for (key, value) in pairs {
        specifier = specifier
            .define(&(*key).try_into().unwrap(), &(*value).try_into().unwrap())
            .unwrap();
    }
    specifier.attributes().clone()
}

fn published(source: &UUri) -> AttributeSet {
    source_attribute_verifier(source)
        .unwrap()
        .required_attributes()
        .clone()
}

#[test]
fn source_is_spelled_out_in_attributes() {
    let source = uri("device1", 0x0002_10AB, 3, 0x8001);
    let pairs = source_attribute_pairs_on(&source, "box7").unwrap();
    let expected = [
        ("up.transport", "uprotocol"),
        ("up.source.authority", "device1"),
        ("up.source.type", "10AB"),
        ("up.source.instance", "2"),
        ("up.source.version", "3"),
        ("up.source.resource", "8001"),
    ];
    assert_eq!(pairs.len(), expected.len());
    for (pair, (key, value)) in pairs.iter().zip(expected) {
        assert_eq!(pair.0, key);
        assert_eq!(pair.1, value);
    }
}

#[test]
fn verifier_requires_every_attribute_of_the_source() {
    let verifier =
        source_attribute_verifier_on(&uri("", 0x0002_10AB, 3, 0x8001), "box7").unwrap();
    let required = verifier.required_attributes();
    assert_eq!(required.number_of_attributes(), 6);
    assert!(verifier.required_keys().is_empty());
    let key = "up.source.authority".try_into().unwrap();
    assert_eq!(required.key_value(&key, 0).unwrap().to_string(), "box7");
}

#[test]
fn published_source_is_read_back() {
    for source in [
        uri("device1", 0x0002_10AB, 3, 0x8001),
        uri("a", 0, 0, 0),
        uri("z", 0xFFFE_FFFE, 0xFE, 0xFFFE),
    ] {
        assert_eq!(source_from_attributes(&published(&source)).unwrap(), source);
    }
}

#[test]
fn filter_decides_on_the_published_source() {
    let attributes = published(&uri("device1", 0x1234_4210, 1, 0x9013));
    assert!(attributes_match_source_filter(
        &attributes,
        &uri("device1", 0xFFFF_4210, 1, 0x9013)
    ));
    assert!(!attributes_match_source_filter(
        &attributes,
        &uri("device1", 0xFFFF_4211, 1, 0x9013)
    ));
    assert!(attributes_match_source_filter(&attributes, &UUri::any()));
}

#[test]
fn empty_authority_of_a_filter_is_the_host() {
    let attributes = published(&uri("box7", 1, 1, 0x9013));
    let filter = uri("", 1, 1, 0x9013);
    assert!(attributes_match_source_filter_on(&attributes, &filter, "box7"));
    assert!(!attributes_match_source_filter_on(&attributes, &filter, "box8"));
}

#[test]
fn service_without_full_provenance_is_refused() {
    let full = [
        ("up.transport", "uprotocol"),
        ("up.source.authority", "device1"),
        ("up.source.type", "10AB"),
        ("up.source.instance", "0"),
        ("up.source.version", "3"),
        ("up.source.resource", "8001"),
    ];
    assert!(source_from_attributes(&attributes(&full)).is_some());
    for missing in 0..full.len() {
        let mut pairs = full.to_vec();
        pairs.remove(missing);
        assert!(source_from_attributes(&attributes(&pairs)).is_none());
    }
    assert!(source_from_attributes(&attributes(&[])).is_none());
    assert!(!attributes_match_source_filter(&attributes(&[]), &UUri::any()));
}

#[test]
fn malformed_provenance_is_refused() {
    for (place, value) in [
        (0, "other"),
        (1, "host:80"),
        (2, "10000"),
        (3, "x"),
        (4, "100"),
        (5, "-1"),
    ] {
        let mut pairs = vec![
            ("up.transport", "uprotocol"),
            ("up.source.authority", "device1"),
            ("up.source.type", "10AB"),
            ("up.source.instance", "0"),
            ("up.source.version", "3"),
            ("up.source.resource", "8001"),
        ];
        pairs[place].1 = value;
        assert!(source_from_attributes(&attributes(&pairs)).is_none(), "{value}");
    }
}

#[test]
fn first_value_of_a_key_counts() {
    let pairs = [
        ("up.transport", "uprotocol"),
        ("up.source.authority", "device1"),
        ("up.source.type", "1"),
        ("up.source.type", "2"),
        ("up.source.instance", "0"),
        ("up.source.version", "3"),
        ("up.source.resource", "8001"),
    ];
    assert_eq!(
        source_from_attributes(&attributes(&pairs)).unwrap().uentity_type_id(),
        1
    );
}

#[test]
fn authority_that_is_no_attribute_value_is_refused() {
    let long = "a".repeat(257);
    let status = source_attribute_verifier(&uri(&long, 1, 1, 1)).unwrap_err();
    assert_eq!(status.get_code(), UCode::InvalidArgument);
    assert_eq!(
        status.message(),
        format!(
            "invalid iceoryx2 service attribute value {long}: SemanticStringError::ExceedsMaximumLength"
        )
    );
    let status = source_attribute_verifier(&uri("gerät", 1, 1, 1)).unwrap_err();
    assert_eq!(
        status.message(),
        "invalid iceoryx2 service attribute value gerät: SemanticStringError::ExceedsMaximumLength"
    );
    let status = source_attribute_verifier_on(&uri("", 1, 1, 1), "").unwrap_err();
    assert_eq!(
        status.message(),
        "invalid iceoryx2 service attribute value : SemanticStringError::InvalidContent"
    );
    assert!(source_attribute_verifier(&uri(&"a".repeat(256), 1, 1, 1)).is_ok());
}

#[test]
fn subscriber_of_a_known_source_brings_its_attributes() {
    let source = uri("device1", 1, 1, 0x8001);
    match subscriber_access(Some(&source), "box7").unwrap() {
        ServiceAccess::OpenOrCreate(verifier) => {
            assert_eq!(verifier.required_attributes().number_of_attributes(), 6)
        }
        ServiceAccess::Open => panic!("attributes expected"),
    }
    assert!(matches!(
        subscriber_access(None, "box7"),
        Ok(ServiceAccess::Open)
    ));
}

fn listing() -> Vec<DiscoveredService> {
    vec![
        DiscoveredService {
            name: "up/device1/4210/1/1/9013".to_string(),
            attributes: published(&uri("device1", 0x0001_4210, 1, 0x9013)),
        },
        DiscoveredService {
            name: "foreign".to_string(),
            attributes: attributes(&[]),
        },
        DiscoveredService {
            name: "up/device1/4210/2/1/9013".to_string(),
            attributes: published(&uri("device1", 0x0002_4210, 1, 0x9013)),
        },
        DiscoveredService {
            name: "up/device2/4210/2/1/9013".to_string(),
            attributes: published(&uri("device2", 0x0002_4210, 1, 0x9013)),
        },
    ]
}

#[test]
fn services_are_chosen_by_their_source() {
    let filter = uri("device1", 0xFFFF_4210, 1, 0x9013);
    let expected = ["up/device1/4210/1/1/9013", "up/device1/4210/2/1/9013"];
    assert_eq!(discover_matching_service_names(&listing(), &filter), expected);
    assert_eq!(matching_service_names_on(&listing(), &filter, "box7"), expected);
    assert_eq!(discover_service_names(&listing()).len(), 4);
}

#[test]
fn transport_reports_a_failed_listing() {
    let transport = Iceoryx2PubSub::new();
    let status = transport
        .discover_service_names(Err("broken".to_string()))
        .unwrap_err();
    assert_eq!(status.get_code(), UCode::Internal);
    assert_eq!(status.message(), "failed to list iceoryx2 services: broken");
    assert_eq!(
        transport
            .discover_matching_service_names(Err("broken".to_string()), &UUri::any())
            .unwrap_err(),
        status
    );
    assert_eq!(
        transport
            .discover_matching_service_names(Ok(listing()), &uri("device2", 0xFFFF_4210, 1, 0x9013))
            .unwrap(),
        ["up/device2/4210/2/1/9013"]
    );
    assert_eq!(
        transport.discover_service_names(Ok(listing())).unwrap()[1],
        "foreign"
    );
}

#[test]
fn discovered_names_are_checked() {
    let names = vec!["up/a".to_string(), "up/b".to_string()];
    assert_eq!(check_discovered_names(&names).unwrap(), names);
    let status =
        check_discovered_names(&vec!["up/a".to_string(), "iox2://x".to_string(), String::new()])
            .unwrap_err();
    assert_eq!(status.get_code(), UCode::Internal);
    assert_eq!(
        status.message(),
        "discovered invalid iceoryx2 service name iox2://x: ServiceNameError::InvalidContent"
    );
    let status = check_discovered_names(&vec![String::new()]).unwrap_err();
    assert_eq!(
        status.message(),
        "discovered invalid iceoryx2 service name : ServiceNameError::InvalidContent"
    );
}
