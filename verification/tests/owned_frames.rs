use bytes::Bytes;
use up_transport_iceoryx2_rust::frame::{
    lease_from_sample, Iceoryx2TxLoan, PayloadAlignment, ReceivedSample,
};
use up_transport_iceoryx2_rust::listeners::Subscription;
use up_transport_iceoryx2_rust::owned::{
    lease_to_encoded_owned, EncodedOwnedFrame, OwnedLoopbackListeners, PreparedOwnedFrame,
};
use up_transport_iceoryx2_rust::pull::{PullAction, PullProgress, PullReceive, PullStart};
use up_transport_iceoryx2_rust::route::ServiceRoute;
use up_transport_iceoryx2_rust::uuri::UUri;
use up_transport_iceoryx2_rust::{
    BenchmarkOwnedIceoryx2Core, Iceoryx2OwnedCore, Iceoryx2PubSub, UCode,
};

fn source() -> UUri {
    UUri {
        authority_name: "device1".to_string(),
        ue_id: 0x4210,
        ue_version_major: 1,
        resource_id: 0x9000,
    }
}

fn prepared(payload: Option<&'static [u8]>) -> PreparedOwnedFrame {
    PreparedOwnedFrame::new(source(), None, vec![1, 2, 3], payload.map(Bytes::from_static))
}

#[test]
fn last_sent_frame_is_logged() {
    let mut core = Iceoryx2OwnedCore::new();
    assert!(core.last_sent().is_none());
    core.send_prepared_owned(&prepared(None)).unwrap();
    assert_eq!(core.last_sent().unwrap().payload(), None);
    core.send_prepared_owned(&prepared(Some(b"abc"))).unwrap();
    let log = core.last_sent().unwrap();
    assert_eq!(log.encoded_metadata(), &[1, 2, 3]);
    assert_eq!(log.payload(), Some(&b"abc"[..]));
    assert_eq!(log, log.clone());
}

#[test]
fn pushed_frames_are_received_in_order() {
    let mut core = Iceoryx2OwnedCore::new();
    core.push_encoded_owned(EncodedOwnedFrame::new(vec![1], None));
    core.push_encoded_owned(EncodedOwnedFrame::new(vec![2], Some(Bytes::from_static(b"x"))));
    let first = core.receive_encoded_owned(&UUri::any(), None).unwrap();
    assert_eq!(first.encoded_metadata(), &[1]);
    assert!(first.payload().is_none());
    let second = core.receive_encoded_owned(&UUri::any(), None).unwrap();
    assert_eq!(second.encoded_metadata(), &[2]);
    assert_eq!(second.payload().unwrap(), &Bytes::from_static(b"x"));
    let status = core.receive_encoded_owned(&UUri::any(), None).err().unwrap();
    assert_eq!(status.get_code(), UCode::NotFound);
    assert_eq!(status.message(), "no frame available");
}

#[test]
fn frame_is_delivered_to_every_listener() {
    let mut core = Iceoryx2OwnedCore::new();
    for listener in [4, 5, 4] {
        core.register_encoded_owned_listener(&UUri::any(), None, listener).unwrap();
    }
    let frame = EncodedOwnedFrame::new(vec![7], Some(Bytes::from_static(b"y")));
    let deliveries = core.deliver_encoded_owned(&frame);
    let listeners: Vec<u64> = deliveries.iter().map(|delivery| delivery.0).collect();
    assert_eq!(listeners, [4, 5, 4]);
    for (_, copy) in &deliveries {
        assert_eq!(copy.encoded_metadata(), &[7]);
        assert_eq!(copy.payload().unwrap(), &Bytes::from_static(b"y"));
    }
}

#[test]
fn listener_is_removed_once() {
    let mut core = Iceoryx2OwnedCore::new();
    for listener in [4, 5, 4] {
        core.register_encoded_owned_listener(&UUri::any(), None, listener).unwrap();
    }
    core.unregister_encoded_owned_listener(&UUri::any(), None, 4).unwrap();
    let frame = EncodedOwnedFrame::new(vec![7], None);
    let listeners: Vec<u64> = core
        .deliver_encoded_owned(&frame)
        .iter()
        .map(|delivery| delivery.0)
        .collect();
    assert_eq!(listeners, [5, 4]);
    let status = core
        .unregister_encoded_owned_listener(&UUri::any(), None, 6)
        .unwrap_err();
    assert_eq!(status.get_code(), UCode::NotFound);
    assert_eq!(status.message(), "listener not registered");
}

#[test]
fn owned_frame_goes_through_a_sample() {
    for payload in [Some(&b"abcdef"[..]), Some(&b""[..]), None] {
        let frame = prepared(payload);
        let spec = frame.loan_spec().unwrap();
        assert_eq!(spec.payload_alignment().as_usize(), 1);
        assert_eq!(spec.payload_len(), payload.map_or(0, |bytes| bytes.len()));
        // The sample that was lent is longer than the frame, and not empty.
        let mut sample = vec![0xEEu8; spec.encoded_metadata().len() + spec.payload_len() + 5];
        let loan = Iceoryx2TxLoan::prepare(
            &mut sample,
            0,
            spec.encoded_metadata(),
            spec.payload_len(),
            PayloadAlignment::new(1).unwrap(),
        )
        .unwrap();
        if let Some(payload) = frame.payload() {
            loan.fill_payload(&mut sample, payload);
        }
        let lease = lease_from_sample(
            ReceivedSample {
                id: 0,
                header: loan.header(),
                len: sample.len(),
                address: 0,
            },
            UUri::any(),
            None,
        )
        .unwrap();
        let received = lease_to_encoded_owned(&lease, &sample).unwrap();
        assert_eq!(received.encoded_metadata(), &[1, 2, 3]);
        assert_eq!(&received.payload().unwrap()[..], payload.unwrap_or_default());
    }
}

#[test]
fn benchmark_core_gives_back_what_it_sends() {
    let core = BenchmarkOwnedIceoryx2Core::new(Iceoryx2PubSub::new());
    for payload in [Some(&b"abcdef"[..]), Some(&b""[..]), None] {
        let frame = prepared(payload);
        let mut sample = vec![0xEEu8; 16];
        let loan = core.send_prepared_owned(&frame, &mut sample, 7).unwrap();
        let received = ReceivedSample {
            id: 1,
            header: loan.header(),
            len: sample.len(),
            address: 1000,
        };
        let lease = lease_from_sample(received, source(), None).unwrap();
        let owned = core.receive_encoded_owned(&lease, &sample).unwrap();
        assert_eq!(owned.encoded_metadata(), &[1, 2, 3]);
        assert_eq!(&owned.payload().unwrap()[..], payload.unwrap_or_default());
    }
}

#[test]
fn sent_frame_is_what_a_receive_for_its_filters_delivers() {
    let mut core = BenchmarkOwnedIceoryx2Core::new(Iceoryx2PubSub::new());
    let sink = UUri {
        authority_name: "client".to_string(),
        ue_id: 0x4211,
        ue_version_major: 1,
        resource_id: 0,
    };
    let frame = PreparedOwnedFrame::new(
        source(),
        Some(sink.clone()),
        vec![9, 8],
        Some(Bytes::from_static(b"xyz")),
    );
    let service_name = frame.loan_spec().unwrap().service_name("box7").unwrap();
    let mut sample = vec![0u8; 8];
    let loan = core.send_prepared_owned(&frame, &mut sample, 64).unwrap();

    let transport = core.inner_mut();
    let Ok(PullStart::Ready(mut pull)) = PullReceive::start(
        &source(),
        Some(&sink),
        &mut transport.pending_pull_source_filters,
        "box7",
    ) else {
        panic!("the source is exact");
    };
    transport.pull_subscribers.insert(&service_name, 4);
    assert!(matches!(
        pull.next_action(
            &mut transport.pull_receive_queue_state,
            &transport.pull_subscribers
        ),
        PullAction::Poll(4)
    ));
    let received = ReceivedSample {
        id: 1,
        header: loan.header(),
        len: sample.len(),
        address: 640,
    };
    let (None, PullProgress::Deliver(lease)) = pull.on_sample(
        &mut transport.pull_receive_queue_state,
        transport.config.pull_mismatch_queue_capacity,
        transport.config.pull_mismatch_queue_full_policy,
        received,
    ) else {
        panic!("the sample meets the filters");
    };
    let owned = core.receive_encoded_owned(&lease, &sample).unwrap();
    assert_eq!(owned.encoded_metadata(), &[9, 8]);
    assert_eq!(owned.payload(), Some(&Bytes::from_static(b"xyz")));
}

#[test]
fn owned_frame_needs_room_in_its_sample() {
    let core = BenchmarkOwnedIceoryx2Core::new(Iceoryx2PubSub::new());
    let mut sample = vec![0xEEu8; 5];
    let status = core
        .send_prepared_owned(&prepared(Some(b"abc")), &mut sample, 0)
        .err()
        .unwrap();
    assert_eq!(status.get_code(), UCode::InvalidArgument);
    assert_eq!(
        status.message(),
        "sample payload length 5 is smaller than required frame length 6"
    );
    assert_eq!(sample, [0xEE; 5]);
}

#[test]
fn registered_owned_listeners_are_in_use() {
    let mut core = Iceoryx2OwnedCore::new();
    for _ in 0..2 {
        core.register_encoded_owned_listener(&UUri::any(), None, 4).unwrap();
    }
    core.unregister_encoded_owned_listener(&UUri::any(), None, 4).unwrap();
    assert!(core.uses_listener(4));
    core.unregister_encoded_owned_listener(&UUri::any(), None, 4).unwrap();
    assert!(!core.uses_listener(4));

    let mut core = BenchmarkOwnedIceoryx2Core::new(Iceoryx2PubSub::new());
    core.register_encoded_owned_listener(&source(), None, 1, 100, None).unwrap();
    assert!(core.uses_owned_listener(1));
    assert!(!core.uses_owned_listener(100));
    core.unregister_encoded_owned_listener(&source(), None, 1).unwrap();
    assert!(!core.uses_owned_listener(1));
}

#[test]
fn loopback_listeners_find_their_stand_in() {
    let mut listeners = OwnedLoopbackListeners::new();
    listeners.push(&source(), None, 1, 100);
    listeners.push(&source(), Some(&UUri::any()), 1, 101);
    listeners.push(&source(), None, 1, 102);
    assert_eq!(listeners.remove(&source(), None, 1).unwrap(), 100);
    assert_eq!(listeners.remove(&source(), None, 1).unwrap(), 102);
    let status = listeners.remove(&source(), None, 1).unwrap_err();
    assert_eq!(status.get_code(), UCode::NotFound);
    assert_eq!(status.message(), "owned loopback listener not registered");
    assert_eq!(listeners.remove(&source(), Some(&UUri::any()), 1).unwrap(), 101);
}

#[test]
fn benchmark_core_registers_the_stand_in_with_the_transport() {
    let mut core = BenchmarkOwnedIceoryx2Core::new(Iceoryx2PubSub::new());
    let subscription = Subscription::new(5, ServiceRoute::new("s", &source(), "box7"));
    core.register_encoded_owned_listener(&source(), None, 1, 100, Some(subscription))
        .unwrap();
    assert!(core.inner().zero_copy_listeners.is_registered(0));
    assert_eq!(
        core.register_encoded_owned_listener(&source(), None, 1, 100, None)
            .unwrap_err()
            .get_code(),
        UCode::AlreadyExists
    );
    let subscribers = core
        .unregister_encoded_owned_listener(&source(), None, 1)
        .unwrap();
    assert_eq!(subscribers.get("s").unwrap().subscriber(), 5);
    assert!(!core.inner().zero_copy_listeners.is_registered(0));
    assert_eq!(
        core.unregister_encoded_owned_listener(&source(), None, 1)
            .err()
            .unwrap()
            .message(),
        "owned loopback listener not registered"
    );
}
