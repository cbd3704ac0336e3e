use up_transport_iceoryx2_rust::discovery::{matching_routes_on, DiscoveredService};
use up_transport_iceoryx2_rust::route::ServiceRoute;
use up_transport_iceoryx2_rust::service_attributes::source_attribute_verifier;
use up_transport_iceoryx2_rust::service_name_mapping::compute_service_name_on;
use up_transport_iceoryx2_rust::uuri::UUri;
use up_transport_iceoryx2_rust::MessagingPattern;

fn uri(authority: &str, entity_id: u32, version: u8, resource: u16) -> UUri {
    UUri {
        authority_name: authority.to_string(),
        ue_id: entity_id,
        ue_version_major: version,
        resource_id: resource,
    }
}

fn service(name: &str, source: &UUri) -> DiscoveredService {
    DiscoveredService {
        name: name.to_string(),
        attributes: source_attribute_verifier(source)
            .unwrap()
            .required_attributes()
            .clone(),
    }
}

#[test]
fn sink_is_read_back_from_the_name_of_a_service() {
    let publisher = uri("device1", 0x0002_10AB, 3, 0x8001);
    let client = uri("client", 0x20BC, 1, 0);
    let method = uri("service", 0xFFFE_0001, 2, 0x0042);
    for (source, sink) in [
        (&publisher, None),
        (&publisher, Some(&client)),
        (&client, Some(&method)),
        (&method, Some(&client)),
        (&client, None),
        (&method, None),
    ] {
        let name =
            compute_service_name_on(source, sink, MessagingPattern::PublishSubscribe, "box7")
                .unwrap();
        let route = ServiceRoute::new(&name, source, "box7");
        assert_eq!(route.name(), name);
        assert_eq!(route.source(), source);
        assert_eq!(route.sink(), sink);
    }
}

#[test]
fn authorities_with_slashes_are_read_back() {
    let source = uri("a/b", 0x4210, 1, 0x9000);
    let sink = uri("c/1/2/3/4", 0x4211, 1, 0);
    let name =
        compute_service_name_on(&source, Some(&sink), MessagingPattern::PublishSubscribe, "box7")
            .unwrap();
    assert_eq!(ServiceRoute::new(&name, &source, "box7").sink(), Some(&sink));
}

#[test]
fn empty_authorities_are_those_of_the_host() {
    let source = uri("", 0x4210, 1, 0x9000);
    let sink = uri("", 0x4211, 1, 0);
    let name =
        compute_service_name_on(&source, Some(&sink), MessagingPattern::PublishSubscribe, "box7")
            .unwrap();
    let route = ServiceRoute::new(&name, &source, "box7");
    assert_eq!(*route.source(), uri("box7", 0x4210, 1, 0x9000));
    assert_eq!(route.sink(), Some(&uri("box7", 0x4211, 1, 0)));
}

#[test]
fn name_that_no_mapping_gives_has_no_sink() {
    let source = uri("device1", 0x4210, 1, 0x9000);
    let client = uri("client", 0x20BC, 1, 0);
    for name in [
        "",
        "up/",
        "some service",
        "up/device1/4210/0/1/9000/client/20BC/0/1",
        "up/device1/4210/0/1/9000/client/20bc/0/1/0",
        "up/device1/4210/0/1/9000/client/020BC/0/1/0",
        "up/device1/4210/0/1/9000/client/20BC/0/1/42",
        "up/device1/4210/0/1/9000/client/20BC/0/100/0",
        "up/device2/4210/0/1/9000/client/20BC/0/1/0",
    ] {
        assert!(ServiceRoute::new(name, &source, "box7").sink().is_none(), "{name}");
    }
    assert!(ServiceRoute::new("up/service/1/0/2/8042", &client, "box7").sink().is_none());
    assert!(ServiceRoute::new("up/client/20BC/0/1/0", &client, "box7").sink().is_none());
}

#[test]
fn discovered_services_are_routed_by_their_attributes() {
    let source = uri("device1", 0x4210, 1, 0x9000);
    let client = uri("client", 0x20BC, 1, 0);
    let services = vec![
        service("up/device1/4210/0/1/9000/client/20BC/0/1/0", &source),
        service("up/device2/4210/0/1/9000", &uri("device2", 0x4210, 1, 0x9000)),
        service("up/device1/4210/0/1/9000", &source),
    ];
    let filter = uri("device1", 0xFFFF_4210, 1, 0x9000);
    let routes = matching_routes_on(&services, &filter, "box7");
    assert_eq!(routes.len(), 2);
    assert_eq!(routes[0].name(), services[0].name);
    assert_eq!(*routes[0].source(), source);
    assert_eq!(routes[0].sink(), Some(&client));
    assert_eq!(routes[1].name(), services[2].name);
    assert!(routes[1].sink().is_none());
}
