use up_transport_iceoryx2_rust::discovery::DiscoveredService;
use up_transport_iceoryx2_rust::frame::ReceivedSample;
use up_transport_iceoryx2_rust::listeners::{ListenerRegistry, RegistrationPlan, Subscription};
use up_transport_iceoryx2_rust::relay::{RelayEvent, RelayRound};
use up_transport_iceoryx2_rust::route::ServiceRoute;
use up_transport_iceoryx2_rust::service_attributes::source_attribute_verifier;
use up_transport_iceoryx2_rust::uprotocolheader::UProtocolHeader;
use up_transport_iceoryx2_rust::uuri::UUri;
use up_transport_iceoryx2_rust::UCode;

fn uri(authority: &str, entity_id: u32, resource: u16) -> UUri {
    UUri {
        authority_name: authority.to_string(),
        ue_id: entity_id,
        ue_version_major: 1,
        resource_id: resource,
    }
}

fn service(name: &str, source: &UUri) -> DiscoveredService {
    DiscoveredService {
        name: name.to_string(),
        attributes: source_attribute_verifier(source)
            .unwrap()
            .required_attributes()
            .clone(),
    }
}

fn subscription(name: &str, source: &UUri, subscriber: u64) -> Subscription {
    Subscription::new(subscriber, ServiceRoute::new(name, source, "box7"))
}

fn somewhere(name: &str, subscriber: u64) -> Subscription {
    subscription(name, &uri("device1", 0x4210, 0x9000), subscriber)
}

fn sample(id: u64) -> ReceivedSample {
    ReceivedSample {
        id,
        header: UProtocolHeader {
            uprotocol_major_version: 0,
            metadata_len: 1,
            payload_offset: 1,
            payload_len: 1,
            payload_alignment: 1,
        },
        len: 2,
        address: 0,
    }
}

#[test]
fn exact_filter_is_served_by_its_one_service() {
    let registry = ListenerRegistry::new();
    let source = uri("device1", 0x4210, 0x9000);
    let sink = uri("", 0x4211, 0);
    match registry.plan_registration(&source, Some(&sink), 1, "box7") {
        Ok(RegistrationPlan::Exact { route }) => {
            assert_eq!(route.name(), "up/device1/4210/0/1/9000/box7/4211/0/1/0");
            assert_eq!(*route.source(), source);
            assert_eq!(route.sink(), Some(&uri("box7", 0x4211, 0)));
        }
        _ => panic!("the filters name a service"),
    }
    assert!(matches!(
        registry.plan_registration(&uri("device1", 0xFFFF_4210, 0x9000), None, 1, "box7"),
        Ok(RegistrationPlan::Broad)
    ));
    assert_eq!(
        registry
            .plan_registration(&uri("", 0x4210, 0x9000), None, 1, "box7")
            .unwrap_err()
            .get_code(),
        UCode::InvalidArgument
    );
}

#[test]
fn second_registration_of_a_listener_is_refused() {
    let mut registry = ListenerRegistry::new();
    let source = uri("device1", 0x4210, 0x9000);
    let sink = uri("client", 1, 0);
    assert_eq!(registry.register(&source, None, 1, None).unwrap(), 0);
    for status in [
        registry.register(&source, None, 1, None).unwrap_err(),
        registry.plan_registration(&source, None, 1, "box7").unwrap_err(),
    ] {
        assert_eq!(status.get_code(), UCode::AlreadyExists);
        assert_eq!(
            status.message(),
            "zero-copy listener already registered for filter"
        );
    }
    assert_eq!(registry.register(&source, None, 2, None).unwrap(), 1);
    assert_eq!(registry.register(&source, Some(&sink), 1, None).unwrap(), 2);
    assert_eq!(registry.len(), 3);
}

#[test]
fn unregistering_undoes_registering() {
    let mut registry = ListenerRegistry::new();
    let source = uri("device1", 0x4210, 0x9000);
    registry.register(&source, None, 1, None).unwrap();
    registry.register(&source, None, 2, Some(somewhere("s", 77))).unwrap();
    let subscribers = registry.unregister(&source, None, 2).unwrap();
    assert_eq!(subscribers.get("s").unwrap().subscriber(), 77);
    assert_eq!(registry.len(), 1);
    assert!(registry.is_registered(0));
    assert!(!registry.is_registered(1));
    let status = registry.unregister(&source, None, 2).err().unwrap();
    assert_eq!(status.get_code(), UCode::NotFound);
    assert_eq!(status.message(), "zero-copy listener not registered for filter");
}

#[test]
fn listener_is_in_use_while_one_registration_names_it() {
    let mut registry = ListenerRegistry::new();
    let source = uri("device1", 0x4210, 0x9000);
    let sink = uri("client", 1, 0);
    registry.register(&source, None, 1, None).unwrap();
    registry.register(&source, Some(&sink), 1, None).unwrap();
    registry.unregister(&source, None, 1).unwrap();
    assert!(registry.uses_listener(1));
    registry.unregister(&source, Some(&sink), 1).unwrap();
    assert!(!registry.uses_listener(1));
}

#[test]
fn number_of_a_removed_registration_is_not_given_again() {
    let mut registry = ListenerRegistry::new();
    let source = uri("device1", 0x4210, 0x9000);
    let first = registry.register(&source, None, 1, None).unwrap();
    registry.unregister(&source, None, 1).unwrap();
    let second = registry.register(&source, None, 1, None).unwrap();
    assert_ne!(first, second);
    assert!(!registry.is_registered(first));
    assert!(registry.is_registered(second));
}

#[test]
fn missing_subscriptions_are_found_registration_by_registration() {
    let mut registry = ListenerRegistry::new();
    registry
        .register(&uri("device1", 0xFFFF_4210, 0x9000), None, 1, None)
        .unwrap();
    registry.register(&UUri::any(), None, 2, Some(somewhere("b", 9))).unwrap();
    let services = vec![
        service("a", &uri("device2", 1, 0x9000)),
        service("b", &uri("device1", 0x0001_4210, 0x9000)),
        service("c", &uri("device1", 0x0002_4210, 0x9000)),
    ];
    let mut attached = Vec::new();
    while let Some((i, j, route)) = registry.next_missing_subscription(&services, "box7") {
        assert_eq!(route.name(), services[j].name);
        registry.attach_subscriber(i, Subscription::new(attached.len() as u64, route));
        attached.push((i, j));
    }
    assert_eq!(attached, [(0, 1), (0, 2), (1, 0), (1, 2)]);
}

#[test]
fn new_source_gets_the_listeners_that_match_it() {
    let mut registry = ListenerRegistry::new();
    registry.register(&uri("device2", 1, 0x9000), None, 1, None).unwrap();
    registry.register(&UUri::any(), None, 2, None).unwrap();
    let source = uri("device1", 1, 0x9000);
    assert_eq!(registry.next_subscription_for_source("s", &source), Some(1));
    registry.attach_subscriber(1, somewhere("s", 5));
    assert_eq!(registry.next_subscription_for_source("s", &source), None);
    assert_eq!(registry.next_subscription_for_source("t", &source), Some(1));
}

#[test]
fn every_subscriber_is_asked_once_in_a_round() {
    let mut registry = ListenerRegistry::new();
    registry.register(&UUri::any(), None, 1, Some(somewhere("a", 10))).unwrap();
    registry.attach_subscriber(0, somewhere("b", 11));
    registry.register(&UUri::any(), None, 2, Some(somewhere("a", 20))).unwrap();
    registry.register(&UUri::any(), None, 3, None).unwrap();
    let mut round = RelayRound::begin(&registry, "box7");
    let mut asked = Vec::new();
    while let Some(subscriber) = round.next_subscriber() {
        asked.push(subscriber);
        let event = if subscriber == 11 {
            RelayEvent::Empty
        } else {
            RelayEvent::Sample(sample(subscriber * 100))
        };
        round.step(&registry, event).unwrap();
    }
    assert_eq!(asked, [10, 11, 20]);
    let deliveries = round.into_deliveries();
    assert_eq!(deliveries.len(), 2);
    assert_eq!((deliveries[0].registration(), deliveries[0].listener()), (0, 1));
    assert_eq!((deliveries[1].registration(), deliveries[1].listener()), (1, 2));
    let leases: Vec<u64> = deliveries
        .into_iter()
        .map(|delivery| delivery.into_lease().sample())
        .collect();
    assert_eq!(leases, [1000, 2000]);
}

#[test]
fn failure_ends_the_round_without_deliveries() {
    let mut registry = ListenerRegistry::new();
    registry
        .register(&UUri::any(), None, 1, Some(somewhere("a", 10)))
        .unwrap();
    registry.attach_subscriber(0, somewhere("b", 11));
    registry.attach_subscriber(0, somewhere("c", 12));
    let malformed = ReceivedSample {
        len: 1,
        ..sample(1)
    };
    for (event, code, message) in [
        (
            RelayEvent::Failed("gone".to_string()),
            UCode::Internal,
            "failed to receive iceoryx2 sample: gone",
        ),
        (
            RelayEvent::Sample(malformed),
            UCode::InvalidArgument,
            "sample payload length 1 is smaller than required frame length 2",
        ),
    ] {
        let mut round = RelayRound::begin(&registry, "box7");
        assert_eq!(round.next_subscriber(), Some(10));
        round.step(&registry, RelayEvent::Sample(sample(100))).unwrap();
        assert_eq!(round.next_subscriber(), Some(11));
        let status = round.step(&registry, event).unwrap_err();
        assert_eq!(status.get_code(), code);
        assert_eq!(status.message(), message);
        assert_eq!(round.next_subscriber(), None);
        assert!(round.into_deliveries().is_empty());
    }
}

#[test]
fn listener_gets_no_sample_for_another_sink() {
    let source = uri("device1", 0x4210, 0x9012);
    let sink_a = uri("device1", 0x4211, 0);
    let sink_b = uri("device1", 0x4212, 0);
    let to_a = "up/device1/4210/0/1/9012/device1/4211/0/1/0";
    let to_b = "up/device1/4210/0/1/9012/device1/4212/0/1/0";
    let mut registry = ListenerRegistry::new();
    for (listener, sink) in [(1, Some(&sink_a)), (2, Some(&sink_b)), (3, None)] {
        registry.register(&source, sink, listener, None).unwrap();
    }
    let services = vec![service(to_a, &source), service(to_b, &source)];
    let mut subscriber = 0;
    while let Some((i, _, route)) = registry.next_missing_subscription(&services, "box7") {
        registry.attach_subscriber(i, Subscription::new(subscriber, route));
        subscriber += 1;
    }
    assert_eq!(subscriber, 6);

    // Only the subscribers to the service that leads to the second sink have a sample.
    let mut round = RelayRound::begin(&registry, "box7");
    while let Some(subscriber) = round.next_subscriber() {
        let event = if subscriber % 2 == 1 {
            RelayEvent::Sample(sample(subscriber))
        } else {
            RelayEvent::Empty
        };
        round.step(&registry, event).unwrap();
    }
    let deliveries = round.into_deliveries();
    let listeners: Vec<u64> = deliveries.iter().map(|delivery| delivery.listener()).collect();
    assert_eq!(listeners, [2, 3]);
    for delivery in deliveries {
        assert_eq!(delivery.into_lease().sink_filter_hint(), Some(&sink_b));
    }
}

#[test]
fn listener_gets_no_sample_from_another_source() {
    let source = uri("device1", 0x4210, 0x9012);
    let mut registry = ListenerRegistry::new();
    let other = subscription("s", &uri("device2", 0x4210, 0x9012), 7);
    registry.register(&source, None, 1, Some(other)).unwrap();
    assert!(registry.relay_sample(0, "s", sample(1), "box7").unwrap().is_none());
    registry.attach_subscriber(0, subscription("t", &source, 8));
    let delivery = registry.relay_sample(0, "t", sample(2), "box7").unwrap().unwrap();
    assert_eq!(delivery.listener(), 1);
}

#[test]
fn empty_authority_of_a_registration_stands_for_the_host() {
    let local = uri("", 0x4210, 0x9012);
    let sink = uri("", 0x4211, 0);
    let mut registry = ListenerRegistry::new();
    let Ok(RegistrationPlan::Exact { route }) =
        registry.plan_registration(&local, Some(&sink), 1, "box7")
    else {
        panic!("the filters name a service");
    };
    let name = route.name().to_string();
    registry
        .register(&local, Some(&sink), 1, Some(Subscription::new(3, route)))
        .unwrap();
    assert!(registry.relay_sample(0, &name, sample(1), "box7").unwrap().is_some());
}

#[test]
fn unregister_voids_collected_deliveries() {
    let mut registry = ListenerRegistry::new();
    let source = uri("device1", 0x4210, 0x9000);
    registry.register(&source, None, 1, Some(somewhere("s", 10))).unwrap();
    registry.register(&source, None, 2, Some(somewhere("s", 20))).unwrap();
    let mut round = RelayRound::begin(&registry, "box7");
    while let Some(subscriber) = round.next_subscriber() {
        round.step(&registry, RelayEvent::Sample(sample(subscriber))).unwrap();
    }
    let deliveries = round.into_deliveries();
    assert!(deliveries.iter().all(|delivery| registry.admits(delivery)));
    registry.unregister(&source, None, 2).unwrap();
    assert!(registry.admits(&deliveries[0]));
    assert!(!registry.admits(&deliveries[1]));
    registry.register(&source, None, 2, Some(somewhere("s", 30))).unwrap();
    assert!(!registry.admits(&deliveries[1]));
}
