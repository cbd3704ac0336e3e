use up_transport_iceoryx2_rust::config::Bus;
use up_transport_iceoryx2_rust::frame::{Iceoryx2TxLoan, LoanError, PayloadAlignment};
use up_transport_iceoryx2_rust::listeners::{ListenerRegistry, Subscription};
use up_transport_iceoryx2_rust::named_table::NamedTable;
use up_transport_iceoryx2_rust::publish::{
    next_source_subscription, publisher_access, BroadReceiverRegistry, LoanKind,
    PreparedTxLoanSpec, PublisherAccess, SourceSubscription, TxLoanAction, TxLoanEvent,
    TxLoanState, TxLoanTerms,
};
use up_transport_iceoryx2_rust::pull::PendingSourceFilters;
use up_transport_iceoryx2_rust::route::ServiceRoute;
use up_transport_iceoryx2_rust::uuri::UUri;
use up_transport_iceoryx2_rust::{UCode, UStatus};

fn uri(authority: &str, entity_id: u32, resource: u16) -> UUri {
    UUri {
        authority_name: authority.to_string(),
        ue_id: entity_id,
        ue_version_major: 1,
        resource_id: resource,
    }
}

fn terms(minimum_subscribers: usize, timeout_nanos: u128) -> TxLoanTerms {
    TxLoanTerms {
        kind: LoanKind::Initialized,
        metadata_len: 10,
        payload_len: 20,
        alignment: PayloadAlignment::new(8).unwrap(),
        minimum_subscribers,
        timeout_nanos,
    }
}

fn failure(action: TxLoanAction) -> UStatus {
    match action {
        TxLoanAction::Fail(status) => status,
        _ => panic!("a failure was expected"),
    }
}

#[test]
fn loan_without_minimum_is_made_at_once() {
    let terms = terms(0, 0);
    let (state, action) = terms.step(TxLoanState::AwaitingPublisher, TxLoanEvent::Publisher(4));
    assert!(matches!(action, TxLoanAction::Notify));
    let (state, action) = terms.step(state, TxLoanEvent::Notified);
    assert!(matches!(
        action,
        TxLoanAction::Lend {
            publisher: 4,
            sample_len: 37
        }
    ));
    let (state, action) = terms.step(state, TxLoanEvent::Lent);
    assert!(matches!(action, TxLoanAction::LayOut));
    assert_eq!(state, TxLoanState::Finished);
}

#[test]
fn borrowed_sample_has_room_at_every_address() {
    let terms = terms(0, 0);
    let awaiting = TxLoanState::AwaitingNotification { publisher: 4 };
    let (_, action) = terms.step(awaiting, TxLoanEvent::Notified);
    let TxLoanAction::Lend { sample_len, .. } = action else {
        panic!("a sample is to be borrowed");
    };
    let metadata = [3u8; 10];
    for base in 0..20 {
        let mut sample = vec![0u8; sample_len];
        let loan = Iceoryx2TxLoan::prepare(
            &mut sample,
            base,
            &metadata,
            terms.payload_len,
            terms.alignment,
        )
        .unwrap();
        assert_eq!((base as u64 + loan.header().payload_offset) % 8, 0);
    }
}

#[test]
fn loan_waits_for_its_subscribers_after_the_sample_is_borrowed() {
    let terms = terms(2, 1_000);
    let awaiting_sample = TxLoanState::AwaitingSample { publisher: 4 };
    let (state, action) = terms.step(awaiting_sample, TxLoanEvent::Lent);
    assert!(matches!(action, TxLoanAction::CountSubscribers { publisher: 4 }));
    let (state, action) = terms.step(
        state,
        TxLoanEvent::Subscribers {
            count: 1,
            elapsed_nanos: 999,
        },
    );
    assert!(matches!(action, TxLoanAction::CountSubscribers { publisher: 4 }));
    let (state, action) = terms.step(
        state,
        TxLoanEvent::Subscribers {
            count: 2,
            elapsed_nanos: 5_000,
        },
    );
    assert!(matches!(action, TxLoanAction::LayOut));
    assert_eq!(state, TxLoanState::Finished);
}

#[test]
fn missing_subscribers_exceed_the_deadline() {
    let (state, action) = terms(2, 1_000).step(
        TxLoanState::AwaitingSubscribers { publisher: 4 },
        TxLoanEvent::Subscribers {
            count: 1,
            elapsed_nanos: 1_000,
        },
    );
    assert_eq!(state, TxLoanState::Finished);
    let status = failure(action);
    assert_eq!(status.get_code(), UCode::DeadlineExceeded);
    assert_eq!(
        status.message(),
        "publisher readiness timed out with 1 of 2 subscribers"
    );
}

#[test]
fn sample_that_was_not_lent_ends_the_loan() {
    let awaiting_sample = TxLoanState::AwaitingSample { publisher: 4 };
    let (_, action) = terms(0, 0).step(
        awaiting_sample,
        TxLoanEvent::NotLent(LoanError::ExceedsMaxLoanSize),
    );
    let status = failure(action);
    assert_eq!(status.get_code(), UCode::ResourceExhausted);
    assert_eq!(
        status.message(),
        "failed to loan sample: LoanError::ExceedsMaxLoanSize"
    );
    let uninitialized = TxLoanTerms {
        kind: LoanKind::Uninitialized,
        ..terms(0, 0)
    };
    let (_, action) = uninitialized.step(
        awaiting_sample,
        TxLoanEvent::NotLent(LoanError::InternalFailure),
    );
    let status = failure(action);
    assert_eq!(status.get_code(), UCode::Internal);
    assert_eq!(
        status.message(),
        "failed to loan uninitialized sample: LoanError::InternalFailure"
    );
}

#[test]
fn overlong_frame_ends_the_loan() {
    let overlong = TxLoanTerms {
        payload_len: usize::MAX,
        ..terms(0, 0)
    };
    let (state, action) = overlong.step(
        TxLoanState::AwaitingNotification { publisher: 4 },
        TxLoanEvent::Notified,
    );
    assert_eq!(state, TxLoanState::Finished);
    assert_eq!(failure(action).message(), "sample length overflow");
}

#[test]
fn failures_and_steps_out_of_order_end_the_loan() {
    let failed = UStatus::fail_with_code(UCode::NotFound, "no service");
    let (state, action) = terms(0, 0).step(
        TxLoanState::AwaitingPublisher,
        TxLoanEvent::Failed(failed.clone()),
    );
    assert_eq!(state, TxLoanState::Finished);
    assert_eq!(failure(action), failed);
    let (state, action) = terms(0, 0).step(TxLoanState::Finished, TxLoanEvent::Lent);
    assert_eq!(state, TxLoanState::Finished);
    assert_eq!(failure(action).message(), "loan step out of order");
}

#[test]
fn loan_request_needs_a_power_of_two() {
    let source = uri("device1", 0x4210, 0x9000);
    let spec =
        PreparedTxLoanSpec::from_encoded_parts(source.clone(), None, vec![1, 2], 3, 4).unwrap();
    assert_eq!(*spec.source(), source);
    assert_eq!(spec.encoded_metadata(), &[1, 2]);
    assert_eq!(spec.payload_len(), 3);
    assert_eq!(spec.payload_alignment().as_usize(), 4);
    assert_eq!(spec.service_name("box7").unwrap(), "up/device1/4210/0/1/9000");
    let status = PreparedTxLoanSpec::from_encoded_parts(source, None, vec![], 3, 6)
        .err()
        .unwrap();
    assert_eq!(status.get_code(), UCode::InvalidArgument);
    assert_eq!(
        status.message(),
        "payload alignment 6 must be a non-zero power of two"
    );
}

#[test]
fn publisher_of_a_service_is_created_once() {
    let source = uri("device1", 0x4210, 0x9000);
    let mut publishers = NamedTable::new();
    match publisher_access(&publishers, "s", &source, "box7").unwrap() {
        PublisherAccess::Create(verifier) => {
            assert_eq!(verifier.required_attributes().number_of_attributes(), 6)
        }
        PublisherAccess::Existing(_) => panic!("there is no publisher yet"),
    }
    publishers.insert("s", 3);
    assert!(matches!(
        publisher_access(&publishers, "s", &source, "box7"),
        Ok(PublisherAccess::Existing(3))
    ));
    assert_eq!(
        publisher_access(&publishers, "t", &uri("gerät", 1, 1), "box7")
            .err()
            .unwrap()
            .get_code(),
        UCode::InvalidArgument
    );
}

#[test]
fn receiver_subscribes_for_pulls_before_listeners() {
    let source = uri("device1", 0x4210, 0x9000);
    let mut pending = PendingSourceFilters::new();
    let mut pull_subscribers = NamedTable::new();
    let mut listeners = ListenerRegistry::new();
    let next = |pending: &PendingSourceFilters,
                pull_subscribers: &NamedTable<u64>,
                listeners: &ListenerRegistry| {
        next_source_subscription(pending, pull_subscribers, listeners, "s", &source)
    };
    assert_eq!(
        next(&pending, &pull_subscribers, &listeners),
        SourceSubscription::Complete
    );
    pending.register_pending_pull_source_filter(&UUri::any());
    listeners.register(&UUri::any(), None, 1, None).unwrap();
    assert_eq!(
        next(&pending, &pull_subscribers, &listeners),
        SourceSubscription::Pull
    );
    pull_subscribers.insert("s", 8);
    assert_eq!(
        next(&pending, &pull_subscribers, &listeners),
        SourceSubscription::Listener(0)
    );
    let route = ServiceRoute::new("s", &source, "box7");
    listeners.attach_subscriber(0, Subscription::new(9, route));
    assert_eq!(
        next(&pending, &pull_subscribers, &listeners),
        SourceSubscription::Complete
    );
}

fn bus(root_path: &str, prefix: &str) -> Bus {
    Bus {
        root_path: root_path.to_string(),
        prefix: prefix.to_string(),
    }
}

#[test]
fn broad_receivers_are_kept_once_and_while_alive() {
    let bus = bus("/tmp/iceoryx2", "iox2_");
    let mut registry = BroadReceiverRegistry::new();
    registry.register_broad_receiver(1, &bus, &vec![]);
    registry.register_broad_receiver(2, &bus, &vec![true]);
    registry.register_broad_receiver(1, &bus, &vec![true, true]);
    assert_eq!(registry.receivers(), [1, 2]);
    registry.register_broad_receiver(3, &bus, &vec![false, true]);
    assert_eq!(registry.receivers(), [2, 3]);
    assert_eq!(registry.live_receivers(&vec![false, true], &bus), [3]);
    assert_eq!(registry.receivers(), [3]);
}

#[test]
fn receivers_of_another_namespace_are_not_told() {
    let ingress = bus("/tmp/iceoryx2", "in_");
    let egress = bus("/tmp/iceoryx2", "out_");
    let elsewhere = bus("/var/iceoryx2", "in_");
    let mut registry = BroadReceiverRegistry::new();
    registry.register_broad_receiver(1, &ingress, &vec![]);
    registry.register_broad_receiver(2, &egress, &vec![true]);
    registry.register_broad_receiver(3, &elsewhere, &vec![true, true]);
    registry.register_broad_receiver(4, &ingress, &vec![true, true, true]);
    let all = vec![true, true, true, true];
    assert_eq!(registry.live_receivers(&all, &ingress), [1, 4]);
    assert_eq!(registry.live_receivers(&all, &egress), [2]);
    assert_eq!(registry.live_receivers(&all, &elsewhere), [3]);
    assert!(registry.live_receivers(&all, &bus("/tmp", "in_")).is_empty());
    assert_eq!(registry.receivers(), [1, 2, 3, 4]);
    assert!(registry.live_receivers(&vec![true, false, true, true], &egress).is_empty());
    assert_eq!(registry.receivers(), [1, 3, 4]);
    assert_eq!(registry.live_receivers(&vec![true, true, true], &ingress), [1, 4]);
}
