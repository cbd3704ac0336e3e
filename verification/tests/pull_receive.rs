use up_transport_iceoryx2_rust::discovery::DiscoveredService;
use up_transport_iceoryx2_rust::frame::{lease_from_sample, Iceoryx2RxLease, ReceivedSample};
use up_transport_iceoryx2_rust::listeners::ListenerRegistry;
use up_transport_iceoryx2_rust::named_table::NamedTable;
use up_transport_iceoryx2_rust::ports::{port_failure_to_status, PortFailure};
use up_transport_iceoryx2_rust::publish::{next_source_subscription, SourceSubscription};
use up_transport_iceoryx2_rust::pull::{
    PendingSourceFilters, PullAction, PullProgress, PullReceive, PullStart,
};
use up_transport_iceoryx2_rust::pull_queue::PullReceiveQueueState;
use up_transport_iceoryx2_rust::service_attributes::source_attribute_verifier;
use up_transport_iceoryx2_rust::uprotocolheader::UProtocolHeader;
use up_transport_iceoryx2_rust::uuri::UUri;
use up_transport_iceoryx2_rust::{
    Iceoryx2PubSub, Iceoryx2PullMismatchQueueFullPolicy, PullMismatchQueueDiagnostics, UCode,
};

const DROP: Iceoryx2PullMismatchQueueFullPolicy =
    Iceoryx2PullMismatchQueueFullPolicy::DropOldestAndReport;
const REJECT: Iceoryx2PullMismatchQueueFullPolicy =
    Iceoryx2PullMismatchQueueFullPolicy::RejectNewestAndReport;

fn uri(authority: &str, entity_id: u32, resource: u16) -> UUri {
    UUri {
        authority_name: authority.to_string(),
        ue_id: entity_id,
        ue_version_major: 1,
        resource_id: resource,
    }
}

fn sample(id: u64) -> ReceivedSample {
    ReceivedSample {
        id,
        header: UProtocolHeader {
            uprotocol_major_version: 0,
            metadata_len: 1,
            payload_offset: 1,
            payload_len: 1,
            payload_alignment: 1,
        },
        len: 2,
        address: 0,
    }
}

fn lease(id: u64, sink: &UUri) -> Iceoryx2RxLease {
    lease_from_sample(sample(id), UUri::any(), Some(sink.clone())).unwrap()
}

#[test]
fn kept_samples_come_back_in_order_by_sink() {
    let a = uri("a", 1, 0);
    let b = uri("b", 1, 0);
    let mut state = PullReceiveQueueState::new();
    for (id, sink) in [(1, &a), (2, &b), (3, &a), (4, &b)] {
        let (released, result) = state.queue_pull_sample(8, DROP, "s", lease(id, sink));
        assert!(released.is_none());
        assert!(result.is_ok());
    }
    assert_eq!(state.diagnostics().current_depth, 4);
    assert_eq!(
        state.diagnostics().last_mismatch_reason.as_deref(),
        Some("queued mismatched pull sample for s; depth is 4")
    );
    assert_eq!(state.pop_queued_pull_sample("s", Some(&b)).unwrap().sample(), 2);
    assert_eq!(state.pop_queued_pull_sample("s", Some(&b)).unwrap().sample(), 4);
    assert!(state.pop_queued_pull_sample("s", Some(&b)).is_none());
    assert!(state.pop_queued_pull_sample("other", None).is_none());
    assert_eq!(state.pop_queued_pull_sample("s", None).unwrap().sample(), 1);
    assert_eq!(state.pop_queued_pull_sample("s", None).unwrap().sample(), 3);
    assert!(state.pop_queued_pull_sample("s", None).is_none());
    assert_eq!(state.diagnostics().current_depth, 0);
}

#[test]
fn depth_grows_by_one_and_shrinks_by_one() {
    let a = uri("a", 1, 0);
    let mut state = PullReceiveQueueState::new();
    for (id, name, depth) in [(1, "s", 1), (2, "t", 2), (3, "s", 3), (4, "s", 3)] {
        state.queue_pull_sample(2, DROP, name, lease(id, &a)).1.unwrap();
        assert_eq!(state.diagnostics().current_depth, depth);
    }
    state.pop_queued_pull_sample("t", None).unwrap();
    assert_eq!(state.diagnostics().current_depth, 2);
}

#[test]
fn full_queue_drops_its_oldest_sample() {
    let a = uri("a", 1, 0);
    let mut state = PullReceiveQueueState::new();
    for id in 1..=2 {
        state.queue_pull_sample(2, DROP, "s", lease(id, &a)).1.unwrap();
    }
    let (released, result) = state.queue_pull_sample(2, DROP, "s", lease(3, &a));
    assert!(result.is_ok());
    assert_eq!(released.unwrap().sample(), 1);
    assert_eq!(
        state.diagnostics(),
        PullMismatchQueueDiagnostics {
            current_depth: 2,
            dropped_mismatches: 1,
            rejected_mismatches: 0,
            last_mismatch_reason: Some(
                "queued mismatched pull sample for s; depth is 2".to_string()
            ),
        }
    );
    assert_eq!(state.pop_queued_pull_sample("s", None).unwrap().sample(), 2);
    assert_eq!(state.pop_queued_pull_sample("s", None).unwrap().sample(), 3);
}

#[test]
fn full_queue_rejects_the_newest_sample() {
    let a = uri("a", 1, 0);
    let mut state = PullReceiveQueueState::new();
    state.queue_pull_sample(1, REJECT, "s", lease(1, &a)).1.unwrap();
    state.queue_pull_sample(1, REJECT, "t", lease(2, &a)).1.unwrap();
    let (released, result) = state.queue_pull_sample(1, REJECT, "s", lease(3, &a));
    assert_eq!(released.unwrap().sample(), 3);
    let status = result.unwrap_err();
    assert_eq!(status.get_code(), UCode::ResourceExhausted);
    assert_eq!(status.message(), "pull mismatch queue full for s; capacity is 1");
    assert_eq!(
        state.diagnostics(),
        PullMismatchQueueDiagnostics {
            current_depth: 2,
            dropped_mismatches: 0,
            rejected_mismatches: 1,
            last_mismatch_reason: Some(
                "rejected newest mismatched pull sample for s; capacity is 1".to_string()
            ),
        }
    );
}

#[test]
fn queue_without_capacity_drops_every_sample() {
    let a = uri("a", 1, 0);
    for policy in [DROP, REJECT] {
        let mut state = PullReceiveQueueState::new();
        let (released, result) = state.queue_pull_sample(0, policy, "s", lease(1, &a));
        assert_eq!(released.unwrap().sample(), 1);
        assert!(result.is_ok());
        assert_eq!(
            state.diagnostics(),
            PullMismatchQueueDiagnostics {
                current_depth: 0,
                dropped_mismatches: 1,
                rejected_mismatches: 0,
                last_mismatch_reason: Some(
                    "dropped mismatched pull sample for s; capacity is 0".to_string()
                ),
            }
        );
    }
}

#[test]
fn fresh_transport_reports_empty_queues() {
    assert_eq!(
        Iceoryx2PubSub::default().pull_mismatch_queue_diagnostics(),
        PullMismatchQueueDiagnostics {
            current_depth: 0,
            dropped_mismatches: 0,
            rejected_mismatches: 0,
            last_mismatch_reason: None,
        }
    );
}

fn ready(start: PullStart) -> PullReceive {
    match start {
        PullStart::Ready(pull) => pull,
        PullStart::Discover => panic!("services are known"),
    }
}

#[test]
fn exact_receive_asks_its_one_service() {
    let source = uri("device1", 0x4210, 0x9000);
    let mut pending = PendingSourceFilters::new();
    let mut queues = PullReceiveQueueState::new();
    let mut subscribers = NamedTable::new();
    let mut pull = ready(PullReceive::start(&source, None, &mut pending, "box7").unwrap());
    assert!(pending.any_matches(&source));

    match pull.next_action(&mut queues, &subscribers) {
        PullAction::OpenSubscriber {
            service_name,
            source: opened,
        } => {
            assert_eq!(service_name, "up/device1/4210/0/1/9000");
            assert_eq!(opened, Some(source.clone()));
            subscribers.insert(&service_name, 5);
        }
        _ => panic!("subscriber is missing"),
    }
    assert!(matches!(
        pull.next_action(&mut queues, &subscribers),
        PullAction::Poll(5)
    ));
    match pull.on_sample(&mut queues, 64, DROP, sample(9)) {
        (None, PullProgress::Deliver(lease)) => {
            assert_eq!(lease.sample(), 9);
            assert_eq!(*lease.source_filter_hint(), source);
            assert!(lease.sink_filter_hint().is_none());
        }
        _ => panic!("sample meets the filter"),
    }
}

#[test]
fn receive_without_samples_ends_at_the_last_service() {
    let source = uri("device1", 0x4210, 0x9000);
    let mut queues = PullReceiveQueueState::new();
    let mut subscribers = NamedTable::new();
    subscribers.insert("up/device1/4210/0/1/9000", 5);
    let mut pull = ready(
        PullReceive::start(&source, None, &mut PendingSourceFilters::new(), "box7").unwrap(),
    );
    assert!(matches!(
        pull.next_action(&mut queues, &subscribers),
        PullAction::Poll(5)
    ));
    pull.on_empty();
    match pull.next_action(&mut queues, &subscribers) {
        PullAction::Fail(status) => {
            assert_eq!(status.get_code(), UCode::NotFound);
            assert_eq!(status.message(), "no sample available");
        }
        _ => panic!("no service is left"),
    }
}

#[test]
fn malformed_sample_ends_the_receive() {
    let source = uri("device1", 0x4210, 0x9000);
    let mut queues = PullReceiveQueueState::new();
    let pull = ready(
        PullReceive::start(&source, None, &mut PendingSourceFilters::new(), "box7").unwrap(),
    );
    let malformed = ReceivedSample {
        len: 1,
        ..sample(9)
    };
    match pull.on_sample(&mut queues, 64, DROP, malformed) {
        (None, PullProgress::Fail(status)) => {
            assert_eq!(status.get_code(), UCode::InvalidArgument)
        }
        _ => panic!("sample is too small"),
    }
}

#[test]
fn kept_sample_is_taken_before_the_subscriber_is_asked() {
    let source = uri("device1", 0x4210, 0x9000);
    let sink = uri("client", 0x20bc, 0);
    let name = "up/device1/4210/0/1/9000/client/20BC/0/1/0";
    let mut queues = PullReceiveQueueState::new();
    queues.queue_pull_sample(4, DROP, name, lease(7, &sink)).1.unwrap();
    let mut pull = ready(
        PullReceive::start(&source, Some(&sink), &mut PendingSourceFilters::new(), "box7").unwrap(),
    );
    match pull.next_action(&mut queues, &NamedTable::new()) {
        PullAction::Deliver(lease) => assert_eq!(lease.sample(), 7),
        _ => panic!("a sample was kept"),
    }
    match pull.next_action(&mut queues, &NamedTable::new()) {
        PullAction::OpenSubscriber { service_name, .. } => assert_eq!(service_name, name),
        _ => panic!("no sample is left"),
    }
}

fn service(name: &str, source: &UUri) -> DiscoveredService {
    DiscoveredService {
        name: name.to_string(),
        attributes: source_attribute_verifier(source)
            .unwrap()
            .required_attributes()
            .clone(),
    }
}

#[test]
fn broad_receive_walks_the_discovered_services() {
    let filter = uri("device1", 0xFFFF_4210, 0x9000);
    let mut pending = PendingSourceFilters::new();
    for _ in 0..2 {
        assert!(matches!(
            PullReceive::start(&filter, None, &mut pending, "box7"),
            Ok(PullStart::Discover)
        ));
    }
    let first = uri("device1", 0x0001_4210, 0x9000);
    assert!(pending.any_matches(&first));
    assert!(!pending.any_matches(&uri("device2", 0x0001_4210, 0x9000)));

    let services = vec![
        service("one", &first),
        service("other", &uri("device2", 0x0001_4210, 0x9000)),
        service("two", &uri("device1", 0x0002_4210, 0x9000)),
    ];
    let mut pull = PullReceive::discovered(&filter, None, &services, "box7").unwrap();
    let mut queues = PullReceiveQueueState::new();
    let mut subscribers = NamedTable::new();
    let mut asked = Vec::new();
    loop {
        match pull.next_action(&mut queues, &subscribers) {
            PullAction::OpenSubscriber {
                service_name,
                source,
            } => {
                assert!(source.is_none());
                subscribers.insert(&service_name, asked.len() as u64);
                asked.push(service_name);
            }
            PullAction::Poll(_) => pull.on_empty(),
            PullAction::Fail(status) => {
                assert_eq!(status.get_code(), UCode::NotFound);
                break;
            }
            PullAction::Deliver(_) => panic!("no sample was kept"),
        }
    }
    assert_eq!(asked, ["one", "two"]);
}

const TO_A: &str = "up/device1/4210/0/1/9011/device1/4211/0/1/0";
const TO_B: &str = "up/device1/4210/0/1/9011/device1/4212/0/1/0";

#[test]
fn sample_for_another_sink_is_kept_for_a_later_receive() {
    let source = uri("device1", 0x4210, 0x9011);
    let filter = uri("device1", 0xFFFF_4210, 0x9011);
    let sink_a = uri("device1", 0x4211, 0);
    let sink_b = uri("device1", 0x4212, 0);
    let services = vec![service(TO_B, &source)];
    let mut queues = PullReceiveQueueState::new();
    let mut subscribers = NamedTable::new();
    subscribers.insert(TO_B, 5);

    let mut pull = PullReceive::discovered(&filter, Some(&sink_a), &services, "box7").unwrap();
    assert!(matches!(
        pull.next_action(&mut queues, &subscribers),
        PullAction::Poll(5)
    ));
    assert!(matches!(
        pull.on_sample(&mut queues, 4, DROP, sample(9)),
        (None, PullProgress::Continue)
    ));
    assert!(matches!(
        pull.next_action(&mut queues, &subscribers),
        PullAction::Poll(5)
    ));
    pull.on_empty();
    match pull.next_action(&mut queues, &subscribers) {
        PullAction::Fail(status) => assert_eq!(status.get_code(), UCode::NotFound),
        _ => panic!("the sample is for another sink"),
    }
    assert_eq!(
        queues.diagnostics().last_mismatch_reason,
        Some(format!("queued mismatched pull sample for {TO_B}; depth is 1"))
    );

    let mut later = ready(
        PullReceive::start(&source, Some(&sink_b), &mut PendingSourceFilters::new(), "box7")
            .unwrap(),
    );
    match later.next_action(&mut queues, &subscribers) {
        PullAction::Deliver(lease) => {
            assert_eq!(lease.sample(), 9);
            assert_eq!(*lease.source_filter_hint(), source);
            assert_eq!(lease.sink_filter_hint(), Some(&sink_b));
        }
        _ => panic!("the sample was kept for this sink"),
    }
}

#[test]
fn sample_for_another_sink_is_refused_by_a_full_queue() {
    let source = uri("device1", 0x4210, 0x9011);
    let filter = uri("device1", 0xFFFF_4210, 0x9011);
    let sink_a = uri("device1", 0x4211, 0);
    let services = vec![service(TO_B, &source)];
    let mut queues = PullReceiveQueueState::new();
    let pull = PullReceive::discovered(&filter, Some(&sink_a), &services, "box7").unwrap();
    pull.on_sample(&mut queues, 1, REJECT, sample(1));
    match pull.on_sample(&mut queues, 1, REJECT, sample(2)) {
        (Some(released), PullProgress::Fail(status)) => {
            assert_eq!(released.sample(), 2);
            assert_eq!(status.get_code(), UCode::ResourceExhausted);
        }
        _ => panic!("the queue is full"),
    }
}

#[test]
fn source_that_was_asked_for_one_sink_is_heard_for_every_sink() {
    let source = uri("device1", 0x4210, 0x9011);
    let sink_a = uri("device1", 0x4211, 0);
    let sink_b = uri("device1", 0x4212, 0);
    let mut pending = PendingSourceFilters::new();
    let mut queues = PullReceiveQueueState::new();
    let mut subscribers = NamedTable::new();
    let listeners = ListenerRegistry::new();

    let mut first =
        ready(PullReceive::start(&source, Some(&sink_a), &mut pending, "box7").unwrap());
    match first.next_action(&mut queues, &subscribers) {
        PullAction::OpenSubscriber { service_name, .. } => {
            assert_eq!(service_name, TO_A);
            subscribers.insert(&service_name, 1);
        }
        _ => panic!("there is no subscriber yet"),
    }

    assert_eq!(
        next_source_subscription(&pending, &subscribers, &listeners, TO_B, &source),
        SourceSubscription::Pull
    );
    subscribers.insert(TO_B, 2);
    assert_eq!(
        next_source_subscription(&pending, &subscribers, &listeners, TO_B, &source),
        SourceSubscription::Complete
    );

    let mut again =
        ready(PullReceive::start(&source, Some(&sink_a), &mut pending, "box7").unwrap());
    assert!(matches!(
        again.next_action(&mut queues, &subscribers),
        PullAction::Poll(1)
    ));
    again.on_empty();
    match again.next_action(&mut queues, &subscribers) {
        PullAction::Fail(status) => assert_eq!(status.get_code(), UCode::NotFound),
        _ => panic!("nothing was sent to this sink"),
    }

    let mut other =
        ready(PullReceive::start(&source, Some(&sink_b), &mut pending, "box7").unwrap());
    assert!(matches!(
        other.next_action(&mut queues, &subscribers),
        PullAction::Poll(2)
    ));
    match other.on_sample(&mut queues, 4, DROP, sample(9)) {
        (None, PullProgress::Deliver(lease)) => {
            assert_eq!(lease.sample(), 9);
            assert_eq!(lease.sink_filter_hint(), Some(&sink_b));
        }
        _ => panic!("the sample is for this sink"),
    }
}

#[test]
fn empty_authority_of_a_sink_filter_stands_for_the_host() {
    let source = uri("device1", 0x4210, 0x9011);
    let filter = uri("device1", 0xFFFF_4210, 0x9011);
    let services = vec![service("up/device1/4210/0/1/9011/box7/4211/0/1/0", &source)];
    let local = uri("", 0x4211, 0);
    let pull = PullReceive::discovered(&filter, Some(&local), &services, "box7").unwrap();
    assert!(matches!(
        pull.on_sample(&mut PullReceiveQueueState::new(), 4, DROP, sample(9)),
        (None, PullProgress::Deliver(_))
    ));
    let pull = PullReceive::discovered(&filter, Some(&local), &services, "box8").unwrap();
    assert!(matches!(
        pull.on_sample(&mut PullReceiveQueueState::new(), 4, DROP, sample(9)),
        (None, PullProgress::Continue)
    ));
}

#[test]
fn published_sample_has_no_sink_to_meet_a_filter() {
    let source = uri("device1", 0x4210, 0x9011);
    let filter = uri("device1", 0xFFFF_4210, 0x9011);
    let services = vec![service("up/device1/4210/0/1/9011", &source)];
    let mut queues = PullReceiveQueueState::new();
    let any = UUri::any();
    let pull = PullReceive::discovered(&filter, Some(&any), &services, "box7").unwrap();
    assert!(matches!(
        pull.on_sample(&mut queues, 4, DROP, sample(9)),
        (None, PullProgress::Continue)
    ));
    let pull = PullReceive::discovered(&filter, None, &services, "box7").unwrap();
    assert!(matches!(
        pull.on_sample(&mut queues, 4, DROP, sample(10)),
        (None, PullProgress::Deliver(_))
    ));
}

#[test]
fn exact_receive_without_service_fails() {
    let source = uri("", 0x4210, 0x9000);
    let mut pending = PendingSourceFilters::new();
    let status = PullReceive::start(&source, None, &mut pending, "box7")
        .err()
        .unwrap();
    assert_eq!(status.get_code(), UCode::InvalidArgument);
    assert!(!pending.any_matches(&source));
}

#[test]
fn port_failures_are_reported_with_their_descriptions() {
    let e = || "E".to_string();
    for (failure, code, text) in [
        (
            PortFailure::CreateService(e()),
            UCode::Internal,
            "failed to create iceoryx2 service: E",
        ),
        (
            PortFailure::ServiceDoesNotExist(e()),
            UCode::NotFound,
            "iceoryx2 service does not exist: E",
        ),
        (
            PortFailure::OpenService(e()),
            UCode::Internal,
            "failed to open iceoryx2 service: E",
        ),
        (
            PortFailure::CreateSubscriber(e()),
            UCode::Internal,
            "failed to create iceoryx2 subscriber: E",
        ),
        (
            PortFailure::CreatePublisher(e()),
            UCode::Internal,
            "failed to create iceoryx2 publisher: E",
        ),
        (
            PortFailure::ListServices(e()),
            UCode::Internal,
            "failed to list iceoryx2 services: E",
        ),
        (PortFailure::PullReceive(e()), UCode::Internal, "E"),
        (PortFailure::Send(e()), UCode::Internal, "failed to send sample: E"),
    ] {
        let status = port_failure_to_status(failure);
        assert_eq!(status.get_code(), code);
        assert_eq!(status.message(), text);
    }
}

#[test]
fn table_holds_one_value_for_each_name() {
    let mut table = NamedTable::new();
    table.insert("a", 1u64);
    table.insert("b", 2);
    table.insert("a", 3);
    assert_eq!(table.len(), 2);
    assert_eq!(table.get("a"), Some(&3));
    assert_eq!(table.get("b"), Some(&2));
    assert!(table.contains("b"));
    assert_eq!(table.remove("b"), Some(2));
    assert_eq!(table.remove("b"), None);
    assert!(!table.contains("b"));
    assert_eq!(table.entry(0), ("a", &3));
}
