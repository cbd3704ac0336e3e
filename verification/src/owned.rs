//! Owned frames: metadata and payload in memory of their own.
//!
//! [`Iceoryx2OwnedCore`] keeps owned frames in memory alone. [`BenchmarkOwnedIceoryx2Core`] copies
//! them into and out of samples of a publish-subscribe transport.

use crate::frame::{
    frame_is_laid_out_as_asked_for, frame_is_laid_out_exactly_if, lease_fault, lease_of,
    loan_fault, loan_layout, sent_frame_is_received, Iceoryx2RxLease, Iceoryx2TxLoan, LeaseView,
    ReceivedSample,
};
use crate::listeners::{
    already_registered, first_subscription, not_registered, subscription_views, Subscription,
};
use crate::named_table::NamedTable;
use crate::publish::{LoanSpecView, PreparedTxLoanSpec};
use crate::pull::{is_pull_progress, is_pull_start, PullProgress, PullReceive, PullStart};
use crate::pull_queue::{Iceoryx2PullMismatchQueueFullPolicy, QueueStateView};
use crate::route::name_gives_its_sink_back;
use crate::service_name_mapping::{mapped_service_name, MessagingPattern};
use crate::status::{fails_with, UCode, UStatus};
use crate::uprotocolheader::{written_layout_reads_back, LayoutView};
use crate::utransport_pubsub::Iceoryx2PubSub;
use crate::uuri::{
    borrowed_parts, borrowed_uri, cloned_uri, optional_parts, same_optional_uri,
    sink_filter_accepts_itself, UUri, UriParts,
};
use bytes::Bytes;
use std::collections::VecDeque;
use vstd::prelude::*;
use vstd::slice::slice_to_vec;

verus! {

/// Shared bytes, `bytes::Bytes`.
#[verifier::external_type_specification]
#[verifier::external_body]
pub struct NativeBytes(Bytes);

/// The bytes that a `bytes::Bytes` holds.
pub uninterp spec fn bytes_of(bytes: Bytes) -> Seq<u8>;

/// Borrows the bytes of a `bytes::Bytes`, by its `Deref`.
#[verifier::external_body]
fn as_slice(bytes: &Bytes) -> (slice: &[u8])
    ensures
        slice@ == bytes_of(*bytes),
{
    bytes
}

/// Calls `bytes::Bytes::copy_from_slice`: new shared bytes that are those of the slice.
#[verifier::external_body]
fn copy_of_slice(slice: &[u8]) -> (bytes: Bytes)
    ensures
        bytes_of(bytes) == slice@,
{
    Bytes::copy_from_slice(slice)
}

/// Calls `bytes::Bytes::clone`: the same bytes.
#[verifier::external_body]
fn shared(bytes: &Bytes) -> (same: Bytes)
    ensures
        bytes_of(same) == bytes_of(*bytes),
{
    bytes.clone()
}

/// The metadata and the payload of an owned frame.
pub struct FrameView {
    pub encoded_metadata: Seq<u8>,
    pub payload: Option<Seq<u8>>,
}

/// The bytes of an optional payload.
pub open spec fn payload_bytes(payload: Option<Bytes>) -> Option<Seq<u8>> {
    match payload {
        Some(bytes) => Some(bytes_of(bytes)),
        None => None,
    }
}

/// An owned frame that was received.
pub struct EncodedOwnedFrame {
    encoded_metadata: Vec<u8>,
    payload: Option<Bytes>,
}

impl View for EncodedOwnedFrame {
    type V = FrameView;

    closed spec fn view(&self) -> FrameView {
        FrameView {
            encoded_metadata: self.encoded_metadata@,
            payload: payload_bytes(self.payload),
        }
    }
}

impl EncodedOwnedFrame {
    /// The frame with the given metadata and payload.
    pub fn new(encoded_metadata: Vec<u8>, payload: Option<Bytes>) -> (frame: Self)
        ensures
            frame@ == (FrameView {
                encoded_metadata: encoded_metadata@,
                payload: payload_bytes(payload),
            }),
    {
        EncodedOwnedFrame { encoded_metadata, payload }
    }

    /// The encoded metadata.
    pub fn encoded_metadata(&self) -> (bytes: &[u8])
        ensures
            bytes@ == self@.encoded_metadata,
    {
        self.encoded_metadata.as_slice()
    }

    /// The payload, if there is one.
    pub fn payload(&self) -> (payload: Option<&Bytes>)
        ensures
            match payload {
                Some(bytes) => self@.payload == Some(bytes_of(*bytes)),
                None => self@.payload is None,
            },
    {
        match &self.payload {
            Some(bytes) => Some(bytes),
            None => None,
        }
    }
}

impl Clone for EncodedOwnedFrame {
    fn clone(&self) -> (copy: Self)
        ensures
            copy@ == self@,
    {
        let encoded_metadata: Vec<u8> = slice_to_vec(self.encoded_metadata.as_slice());
        let payload: Option<Bytes> = match &self.payload {
            Some(bytes) => Some(shared(bytes)),
            None => None,
        };
        EncodedOwnedFrame { encoded_metadata, payload }
    }
}

/// An owned frame that is to be sent.
pub struct PreparedOwnedFrame {
    source: UUri,
    sink: Option<UUri>,
    encoded_metadata: Vec<u8>,
    payload: Option<Bytes>,
}

/// The parts of an owned frame that is to be sent.
pub struct PreparedFrameView {
    pub source: UriParts,
    pub sink: Option<UriParts>,
    pub frame: FrameView,
}

impl View for PreparedOwnedFrame {
    type V = PreparedFrameView;

    closed spec fn view(&self) -> PreparedFrameView {
        PreparedFrameView {
            source: self.source@,
            sink: optional_parts(self.sink),
            frame: FrameView {
                encoded_metadata: self.encoded_metadata@,
                payload: payload_bytes(self.payload),
            },
        }
    }
}

/// The length of an optional payload.
pub open spec fn optional_len(payload: Option<Seq<u8>>) -> nat {
    match payload {
        Some(bytes) => bytes.len(),
        None => 0,
    }
}

/// The request for a loan that has room for a frame: the payload needs no alignment.
pub open spec fn loan_request(frame: PreparedFrameView) -> LoanSpecView {
    LoanSpecView {
        source: frame.source,
        sink: frame.sink,
        encoded_metadata: frame.frame.encoded_metadata,
        payload_len: optional_len(frame.frame.payload),
        payload_alignment: 1,
    }
}

/// The bytes of a sample in which a frame was laid out, once the payload is copied into it, if
/// there is one.
pub open spec fn with_payload(
    layout: LayoutView,
    sample: Seq<u8>,
    payload: Option<Seq<u8>>,
) -> Seq<u8> {
    match payload {
        Some(bytes) => sample.take(layout.payload_offset as int) + bytes + sample.skip(
            layout.end() as int,
        ),
        None => sample,
    }
}

/// The frame of a lease on a sample with the given bytes.
pub open spec fn leased_frame(lease: LeaseView, sample: Seq<u8>) -> FrameView {
    FrameView {
        encoded_metadata: lease.layout.metadata_of(sample),
        payload: Some(lease.layout.payload_of(sample)),
    }
}

/// The layout of an owned frame in a sample that begins at address `base`.
pub open spec fn owned_layout(frame: FrameView, base: nat) -> LayoutView {
    loan_layout(base, frame.encoded_metadata.len(), optional_len(frame.payload), 1)
}

/// What keeps an owned frame from being laid out in a sample of `sample_len` bytes at address
/// `base`, if anything.
pub open spec fn owned_fault(frame: FrameView, base: nat, sample_len: nat) -> Option<Seq<char>> {
    loan_fault(base, frame.encoded_metadata.len(), optional_len(frame.payload), 1, sample_len)
}

/// The bytes of a sample that was lent with the bytes `lent` at address `base`, once an owned
/// frame is copied into it.
pub open spec fn sent_sample(frame: FrameView, base: nat, lent: Seq<u8>) -> Seq<u8> {
    with_payload(
        owned_layout(frame, base),
        frame.encoded_metadata + lent.skip(frame.encoded_metadata.len() as int),
        frame.payload,
    )
}

/// An owned frame as it comes back through a sample: the same, with an empty payload where it had
/// none.
pub open spec fn returned_frame(frame: FrameView) -> FrameView {
    FrameView {
        payload: Some(
            match frame.payload {
                Some(bytes) => bytes,
                None => Seq::empty(),
            },
        ),
        ..frame
    }
}

impl PreparedOwnedFrame {
    /// The frame with the given parts.
    pub fn new(
        source: UUri,
        sink: Option<UUri>,
        encoded_metadata: Vec<u8>,
        payload: Option<Bytes>,
    ) -> (frame: Self)
        ensures
            frame@ == (PreparedFrameView {
                source: source@,
                sink: optional_parts(sink),
                frame: FrameView {
                    encoded_metadata: encoded_metadata@,
                    payload: payload_bytes(payload),
                },
            }),
    {
        PreparedOwnedFrame { source, sink, encoded_metadata, payload }
    }

    /// The payload, if there is one.
    pub fn payload(&self) -> (payload: Option<&[u8]>)
        ensures
            match payload {
                Some(bytes) => self@.frame.payload == Some(bytes@),
                None => self@.frame.payload is None,
            },
    {
        match &self.payload {
            Some(bytes) => Some(as_slice(bytes)),
            None => None,
        }
    }

    /// The request for a loan that has room for the frame: the payload needs no alignment.
    pub fn loan_spec(&self) -> (result: Result<PreparedTxLoanSpec, UStatus>)
        ensures
            match result {
                Ok(spec) => spec@ == loan_request(self@),
                Err(_) => false,
            },
    {
        proof {
            reveal(vstd::arithmetic::power2::is_pow2);
        }
        let payload_len: usize = match self.payload() {
            Some(payload) => payload.len(),
            None => 0,
        };
        PreparedTxLoanSpec::from_encoded_parts(
            self.source.clone(),
            cloned_uri(borrowed_uri(&self.sink)),
            slice_to_vec(self.encoded_metadata.as_slice()),
            payload_len,
            1,
        )
    }
}

/// The frame of a lease, as an owned one.
pub fn lease_to_encoded_owned(lease: &Iceoryx2RxLease, sample: &[u8]) -> (result: Result<
    EncodedOwnedFrame,
    UStatus,
>)
    requires
        lease@.layout.end() <= sample@.len(),
    ensures
        match result {
            Ok(frame) => frame@ == leased_frame(lease@, sample@),
            Err(_) => false,
        },
{
    let payload: Option<Bytes> = match lease.try_contiguous_payload(sample) {
        Some(payload) => Some(copy_of_slice(payload)),
        None => None,
    };
    Ok(EncodedOwnedFrame::new(slice_to_vec(lease.encoded_metadata(sample)), payload))
}

/// Captured prepared owned frame parts used by tests and diagnostics.
#[derive(Debug, PartialEq, Eq)]
pub struct Iceoryx2EncodedOwnedFrameLog {
    encoded_metadata: Vec<u8>,
    payload: Option<Vec<u8>>,
}

impl View for Iceoryx2EncodedOwnedFrameLog {
    type V = FrameView;

    closed spec fn view(&self) -> FrameView {
        FrameView {
            encoded_metadata: self.encoded_metadata@,
            payload: match self.payload {
                Some(bytes) => Some(bytes@),
                None => None,
            },
        }
    }
}

impl Clone for Iceoryx2EncodedOwnedFrameLog {
    fn clone(&self) -> (copy: Self)
        ensures
            copy@ == self@,
    {
        Iceoryx2EncodedOwnedFrameLog {
            encoded_metadata: slice_to_vec(self.encoded_metadata.as_slice()),
            payload: match &self.payload {
                Some(bytes) => Some(slice_to_vec(bytes.as_slice())),
                None => None,
            },
        }
    }
}

impl Iceoryx2EncodedOwnedFrameLog {
    /// The encoded metadata bytes.
    pub fn encoded_metadata(&self) -> (bytes: &[u8])
        ensures
            bytes@ == self@.encoded_metadata,
    {
        self.encoded_metadata.as_slice()
    }

    /// The owned payload bytes, if present.
    pub fn payload(&self) -> (payload: Option<&[u8]>)
        ensures
            match payload {
                Some(bytes) => self@.payload == Some(bytes@),
                None => self@.payload is None,
            },
    {
        match &self.payload {
            Some(bytes) => Some(bytes.as_slice()),
            None => None,
        }
    }

    fn from_frame(frame: &PreparedOwnedFrame) -> (log: Self)
        ensures
            log@ == frame@.frame,
    {
        Iceoryx2EncodedOwnedFrameLog {
            encoded_metadata: slice_to_vec(frame.encoded_metadata.as_slice()),
            payload: match &frame.payload {
                Some(bytes) => Some(slice_to_vec(as_slice(bytes))),
                None => None,
            },
        }
    }
}

/// Owned frames in memory: those that were sent, those that wait to be received, and the
/// listeners, which are known by numbers.
pub struct Iceoryx2OwnedCore {
    sent: Vec<Iceoryx2EncodedOwnedFrameLog>,
    received: VecDeque<EncodedOwnedFrame>,
    listeners: Vec<u64>,
}

/// The contents of an owned core.
#[verifier::ext_equal]
pub struct OwnedView {
    pub sent: Seq<FrameView>,
    pub received: Seq<FrameView>,
    pub listeners: Seq<u64>,
}

impl View for Iceoryx2OwnedCore {
    type V = OwnedView;

    closed spec fn view(&self) -> OwnedView {
        OwnedView {
            sent: self.sent@.map_values(|log: Iceoryx2EncodedOwnedFrameLog| log@),
            received: self.received@.map_values(|frame: EncodedOwnedFrame| frame@),
            listeners: self.listeners@,
        }
    }
}

impl Default for Iceoryx2OwnedCore {
    fn default() -> (core: Self)
        ensures
            core@ == (OwnedView {
                sent: Seq::empty(),
                received: Seq::empty(),
                listeners: Seq::empty(),
            }),
    {
        Self::new()
    }
}

/// Whether `i` is the first place of a number in a list.
pub open spec fn is_first_place(list: Seq<u64>, number: u64, i: int) -> bool {
    &&& 0 <= i < list.len()
    &&& list[i] == number
    &&& forall|j: int| 0 <= j < i ==> list[j] != number
}

/// A listener with the frame that is to be delivered to it.
pub open spec fn delivery_pairs(pairs: Seq<(u64, EncodedOwnedFrame)>) -> Seq<(u64, FrameView)> {
    pairs.map_values(|pair: (u64, EncodedOwnedFrame)| (pair.0, pair.1@))
}

impl Iceoryx2OwnedCore {
    /// An empty owned-frame core.
    pub fn new() -> (core: Self)
        ensures
            core@ == (OwnedView {
                sent: Seq::empty(),
                received: Seq::empty(),
                listeners: Seq::empty(),
            }),
    {
        let core = Iceoryx2OwnedCore {
            sent: Vec::new(),
            received: VecDeque::new(),
            listeners: Vec::new(),
        };
        proof {
            assert(core@.sent =~= Seq::empty());
            assert(core@.received =~= Seq::empty());
        }
        core
    }

    /// The last prepared owned frame that was sent.
    pub fn last_sent(&self) -> (last: Option<Iceoryx2EncodedOwnedFrameLog>)
        ensures
            match last {
                Some(log) => self@.sent.len() > 0 && log@ == self@.sent.last(),
                None => self@.sent.len() == 0,
            },
    {
        let len: usize = self.sent.len();
        if len == 0 {
            None
        } else {
            Some(self.sent[len - 1].clone())
        }
    }

    /// Adds an encoded owned frame to those that wait to be received.
    pub fn push_encoded_owned(&mut self, frame: EncodedOwnedFrame)
        ensures
            final(self)@ == (OwnedView {
                received: old(self)@.received.push(frame@),
                ..old(self)@
            }),
    {
        let ghost before = self@;
        self.received.push_back(frame);
        proof {
            assert(self@.received =~= before.received.push(frame@));
        }
    }

    /// The registered listeners, each with a copy of the frame that is to be delivered to it.
    pub fn deliver_encoded_owned(&self, frame: &EncodedOwnedFrame) -> (deliveries: Vec<
        (u64, EncodedOwnedFrame),
    >)
        ensures
            delivery_pairs(deliveries@) == self@.listeners.map_values(
                |listener: u64| (listener, frame@),
            ),
    {
        let mut deliveries: Vec<(u64, EncodedOwnedFrame)> = Vec::new();
        let ghost expected = self@.listeners.map_values(|listener: u64| (listener, frame@));
        let mut i: usize = 0;
        while i < self.listeners.len()
            invariant
                i <= self.listeners@.len(),
                expected == self@.listeners.map_values(|listener: u64| (listener, frame@)),
                delivery_pairs(deliveries@) =~= expected.take(i as int),
            decreases self.listeners@.len() - i,
        {
            let ghost before = deliveries@;
            deliveries.push((self.listeners[i], frame.clone()));
            proof {
                assert(delivery_pairs(deliveries@) =~= delivery_pairs(before).push(
                    expected[i as int],
                ));
                assert(expected.take(i + 1) =~= expected.take(i as int).push(expected[i as int]));
            }
            i = i + 1;
        }
        proof {
            assert(expected.take(i as int) =~= expected);
        }
        deliveries
    }

    /// Records a frame as sent.
    pub fn send_prepared_owned(&mut self, frame: &PreparedOwnedFrame) -> (result: Result<
        (),
        UStatus,
    >)
        ensures
            result is Ok,
            final(self)@ == (OwnedView {
                sent: old(self)@.sent.push(frame@.frame),
                ..old(self)@
            }),
    {
        let ghost before = self@;
        self.sent.push(Iceoryx2EncodedOwnedFrameLog::from_frame(frame));
        proof {
            assert(self@.sent =~= before.sent.push(frame@.frame));
        }
        Ok(())
    }

    /// Takes the frame that waits longest, whatever the filters.
    pub fn receive_encoded_owned(
        &mut self,
        _source_filter: &UUri,
        _sink_filter: Option<&UUri>,
    ) -> (result: Result<EncodedOwnedFrame, UStatus>)
        ensures
            match result {
                Ok(frame) => old(self)@.received.len() > 0 && frame@ == old(self)@.received[0]
                    && final(self)@ == (OwnedView {
                    received: old(self)@.received.skip(1),
                    ..old(self)@
                }),
                Err(_) => old(self)@.received.len() == 0 && final(self)@ == old(self)@
                    && fails_with(result, UCode::NotFound, "no frame available"@),
            },
    {
        let ghost before = self@;
        match self.received.pop_front() {
            Some(frame) => {
                proof {
                    assert(self@.received =~= before.received.skip(1));
                }
                Ok(frame)
            },
            None => {
                proof {
                    assert(self@ =~= before);
                }
                Err(UStatus::fail_with_code(UCode::NotFound, "no frame available"))
            },
        }
    }

    /// Adds a listener, whatever the filters.
    pub fn register_encoded_owned_listener(
        &mut self,
        _source_filter: &UUri,
        _sink_filter: Option<&UUri>,
        listener: u64,
    ) -> (result: Result<(), UStatus>)
        ensures
            result is Ok,
            final(self)@ == (OwnedView {
                listeners: old(self)@.listeners.push(listener),
                ..old(self)@
            }),
    {
        self.listeners.push(listener);
        Ok(())
    }

    /// Removes a listener once, whatever the filters.
    pub fn unregister_encoded_owned_listener(
        &mut self,
        _source_filter: &UUri,
        _sink_filter: Option<&UUri>,
        listener: u64,
    ) -> (result: Result<(), UStatus>)
        ensures
            match result {
                Ok(()) => exists|i: int| #[trigger]
                    is_first_place(old(self)@.listeners, listener, i) && final(self)@ == (
                    OwnedView { listeners: old(self)@.listeners.remove(i), ..old(self)@ }),
                Err(_) => !old(self)@.listeners.contains(listener) && final(self)@ == old(self)@
                    && fails_with(result, UCode::NotFound, "listener not registered"@),
            },
    {
        let mut i: usize = 0;
        while i < self.listeners.len()
            invariant
                self@ == old(self)@,
                i <= self.listeners@.len(),
                forall|j: int| 0 <= j < i ==> self@.listeners[j] != listener,
            decreases self.listeners@.len() - i,
        {
            if self.listeners[i] == listener {
                proof {
                    assert(is_first_place(old(self)@.listeners, listener, i as int));
                }
                self.listeners.remove(i);
                return Ok(());
            }
            i = i + 1;
        }
        Err(UStatus::fail_with_code(UCode::NotFound, "listener not registered"))
    }

    /// Whether a listener is registered.
    pub fn uses_listener(&self, listener: u64) -> (used: bool)
        ensures
            used == self@.listeners.contains(listener),
    {
        let mut i: usize = 0;
        while i < self.listeners.len()
            invariant
                i <= self.listeners@.len(),
                forall|j: int| 0 <= j < i ==> self@.listeners[j] != listener,
            decreases self.listeners@.len() - i,
        {
            if self.listeners[i] == listener {
                proof {
                    assert(self@.listeners[i as int] == listener);
                }
                return true;
            }
            i = i + 1;
        }
        false
    }
}

/// A listener for owned frames, and the zero-copy listener that stands for it.
pub struct OwnedLoopbackListenerRegistration {
    source_filter: UUri,
    sink_filter: Option<UUri>,
    owned_listener: u64,
    zero_copy_listener: u64,
}

/// The parts of a registration for owned frames.
pub struct LoopbackView {
    pub source: UriParts,
    pub sink: Option<UriParts>,
    pub owned_listener: u64,
    pub zero_copy_listener: u64,
}

impl View for OwnedLoopbackListenerRegistration {
    type V = LoopbackView;

    closed spec fn view(&self) -> LoopbackView {
        LoopbackView {
            source: self.source_filter@,
            sink: optional_parts(self.sink_filter),
            owned_listener: self.owned_listener,
            zero_copy_listener: self.zero_copy_listener,
        }
    }
}

impl LoopbackView {
    /// Whether the registration is that of the given listener for the given filters.
    pub open spec fn has_identity(
        self,
        source: UriParts,
        sink: Option<UriParts>,
        owned_listener: u64,
    ) -> bool {
        self.source == source && self.sink == sink && self.owned_listener == owned_listener
    }
}

/// The listeners for owned frames.
pub struct OwnedLoopbackListeners {
    registrations: Vec<OwnedLoopbackListenerRegistration>,
}

impl View for OwnedLoopbackListeners {
    type V = Seq<LoopbackView>;

    closed spec fn view(&self) -> Seq<LoopbackView> {
        self.registrations@.map_values(
            |registration: OwnedLoopbackListenerRegistration| registration@,
        )
    }
}

/// Whether `i` is the first place of the registration of a listener for the filters.
pub open spec fn is_first_loopback(
    registrations: Seq<LoopbackView>,
    source: UriParts,
    sink: Option<UriParts>,
    owned_listener: u64,
    i: int,
) -> bool {
    &&& 0 <= i < registrations.len()
    &&& registrations[i].has_identity(source, sink, owned_listener)
    &&& forall|j: int|
        0 <= j < i ==> !(#[trigger] registrations[j]).has_identity(source, sink, owned_listener)
}

/// Whether no registration is that of the given listener for the given filters.
pub open spec fn has_no_loopback(
    registrations: Seq<LoopbackView>,
    source: UriParts,
    sink: Option<UriParts>,
    owned_listener: u64,
) -> bool {
    forall|j: int|
        0 <= j < registrations.len() ==> !(#[trigger] registrations[j]).has_identity(
            source,
            sink,
            owned_listener,
        )
}

impl OwnedLoopbackListeners {
    /// No listeners.
    pub fn new() -> (listeners: Self)
        ensures
            listeners@ == Seq::<LoopbackView>::empty(),
    {
        let listeners = OwnedLoopbackListeners { registrations: Vec::new() };
        proof {
            assert(listeners@ =~= Seq::<LoopbackView>::empty());
        }
        listeners
    }

    /// Adds a listener for owned frames, with the zero-copy listener that stands for it.
    pub fn push(
        &mut self,
        source_filter: &UUri,
        sink_filter: Option<&UUri>,
        owned_listener: u64,
        zero_copy_listener: u64,
    )
        ensures
            final(self)@ == old(self)@.push(
                LoopbackView {
                    source: source_filter@,
                    sink: borrowed_parts(sink_filter),
                    owned_listener,
                    zero_copy_listener,
                },
            ),
    {
        let ghost before = self@;
        let registration = OwnedLoopbackListenerRegistration {
            source_filter: source_filter.clone(),
            sink_filter: cloned_uri(sink_filter),
            owned_listener,
            zero_copy_listener,
        };
        let ghost added = registration@;
        self.registrations.push(registration);
        proof {
            assert(self@ =~= before.push(added));
        }
    }

    /// Removes a listener for owned frames once, and tells which zero-copy listener stood for it.
    pub fn remove(
        &mut self,
        source_filter: &UUri,
        sink_filter: Option<&UUri>,
        owned_listener: u64,
    ) -> (result: Result<u64, UStatus>)
        ensures
            ({
                let sink = borrowed_parts(sink_filter);
                match result {
                    Ok(zero_copy_listener) => exists|i: int| #[trigger]
                        is_first_loopback(old(self)@, source_filter@, sink, owned_listener, i)
                            && zero_copy_listener == old(self)@[i].zero_copy_listener
                            && final(self)@ == old(self)@.remove(i),
                    Err(_) => final(self)@ == old(self)@ && has_no_loopback(
                        old(self)@,
                        source_filter@,
                        sink,
                        owned_listener,
                    ) && fails_with(
                        result,
                        UCode::NotFound,
                        "owned loopback listener not registered"@,
                    ),
                }
            }),
    {
        let ghost before = self@;
        let ghost sink = borrowed_parts(sink_filter);
        let mut i: usize = 0;
        while i < self.registrations.len()
            invariant
                self@ == before,
                before == old(self)@,
                sink == borrowed_parts(sink_filter),
                i <= self.registrations@.len(),
                forall|j: int|
                    0 <= j < i ==> !(#[trigger] before[j]).has_identity(
                        source_filter@,
                        sink,
                        owned_listener,
                    ),
            decreases self.registrations@.len() - i,
        {
            let registration = &self.registrations[i];
            proof {
                assert(before[i as int] == registration@);
            }
            if registration.source_filter == *source_filter && same_optional_uri(
                borrowed_uri(&registration.sink_filter),
                sink_filter,
            ) && registration.owned_listener == owned_listener {
                proof {
                    assert(is_first_loopback(
                        before,
                        source_filter@,
                        sink,
                        owned_listener,
                        i as int,
                    ));
                }
                let removed = self.registrations.remove(i);
                proof {
                    assert(self@ =~= before.remove(i as int));
                }
                return Ok(removed.zero_copy_listener);
            }
            i = i + 1;
        }
        Err(UStatus::fail_with_code(UCode::NotFound, "owned loopback listener not registered"))
    }

    /// Whether a listener for owned frames is there, for whatever filters.
    pub fn uses_owned_listener(&self, owned_listener: u64) -> (used: bool)
        ensures
            used == exists|i: int|
                0 <= i < self@.len() && (#[trigger] self@[i]).owned_listener == owned_listener,
    {
        let mut i: usize = 0;
        while i < self.registrations.len()
            invariant
                i <= self.registrations@.len(),
                forall|j: int| 0 <= j < i ==> (#[trigger] self@[j]).owned_listener != owned_listener,
            decreases self.registrations@.len() - i,
        {
            if self.registrations[i].owned_listener == owned_listener {
                proof {
                    assert(self@[i as int].owned_listener == owned_listener);
                }
                return true;
            }
            i = i + 1;
        }
        false
    }
}

/// A core for owned frames on top of a publish-subscribe transport.
///
/// It copies owned payload bytes into loans of the transport, and the frames of leases into owned
/// frames.
pub struct BenchmarkOwnedIceoryx2Core {
    inner: Iceoryx2PubSub,
    listeners: OwnedLoopbackListeners,
}

impl BenchmarkOwnedIceoryx2Core {
    /// The transport underneath.
    pub closed spec fn transport(self) -> Iceoryx2PubSub {
        self.inner
    }

    /// The listeners for owned frames.
    pub closed spec fn loopbacks(self) -> Seq<LoopbackView> {
        self.listeners@
    }

    /// A core on top of the given transport.
    pub fn new(inner: Iceoryx2PubSub) -> (core: Self)
        ensures
            core.transport() == inner,
            core.loopbacks() == Seq::<LoopbackView>::empty(),
    {
        BenchmarkOwnedIceoryx2Core { inner, listeners: OwnedLoopbackListeners::new() }
    }

    /// The transport underneath.
    pub fn inner(&self) -> (inner: &Iceoryx2PubSub)
        ensures
            *inner == self.transport(),
    {
        &self.inner
    }

    /// The transport underneath, to be changed.
    pub fn inner_mut(&mut self) -> (inner: &mut Iceoryx2PubSub)
        ensures
            *inner == old(self).transport(),
            final(self).transport() == *final(inner),
            final(self).loopbacks() == old(self).loopbacks(),
    {
        &mut self.inner
    }

    /// Lays an owned frame out in a sample that was borrowed for it, begins at address `base` and
    /// is to be sent with the header of the loan: copies the metadata and the payload into it.
    pub fn send_prepared_owned(
        &self,
        frame: &PreparedOwnedFrame,
        sample: &mut [u8],
        base: usize,
    ) -> (result: Result<Iceoryx2TxLoan, UStatus>)
        ensures
            ({
                let fault = owned_fault(frame@.frame, base as nat, old(sample)@.len());
                match result {
                    Ok(loan) => {
                        &&& fault is None
                        &&& loan@ == owned_layout(frame@.frame, base as nat)
                        &&& final(sample)@ == sent_sample(
                            frame@.frame,
                            base as nat,
                            old(sample)@,
                        )
                    },
                    Err(status) => final(sample)@ == old(sample)@ && match fault {
                        Some(message) => status.says(UCode::InvalidArgument, message),
                        None => false,
                    },
                }
            }),
    {
        let request = frame.loan_spec()?;
        let loan = Iceoryx2TxLoan::prepare(
            sample,
            base,
            request.encoded_metadata(),
            request.payload_len(),
            request.payload_alignment(),
        )?;
        match frame.payload() {
            Some(payload) => {
                loan.fill_payload(sample, payload);
            },
            None => {},
        }
        Ok(loan)
    }

    /// The owned frame of a sample that the transport received.
    pub fn receive_encoded_owned(&self, lease: &Iceoryx2RxLease, sample: &[u8]) -> (result: Result<
        EncodedOwnedFrame,
        UStatus,
    >)
        requires
            lease@.layout.end() <= sample@.len(),
        ensures
            match result {
                Ok(frame) => frame@ == leased_frame(lease@, sample@),
                Err(_) => false,
            },
    {
        lease_to_encoded_owned(lease, sample)
    }

    /// Whether a listener for owned frames is registered, for whatever filters.
    pub fn uses_owned_listener(&self, owned_listener: u64) -> (used: bool)
        ensures
            used == exists|i: int|
                0 <= i < self.loopbacks().len() && (#[trigger] self.loopbacks()[i]).owned_listener
                    == owned_listener,
    {
        self.listeners.uses_owned_listener(owned_listener)
    }

    /// Registers a listener for owned frames: the zero-copy listener that stands for it is
    /// registered with the transport, with the subscription that serves it from the start, if
    /// there is one.
    pub fn register_encoded_owned_listener(
        &mut self,
        source_filter: &UUri,
        sink_filter: Option<&UUri>,
        owned_listener: u64,
        zero_copy_listener: u64,
        subscription: Option<Subscription>,
    ) -> (result: Result<u64, UStatus>)
        requires
            old(self).transport().wf(),
        ensures
            final(self).transport().wf(),
            final(self).transport() == (Iceoryx2PubSub {
                zero_copy_listeners: final(self).transport().zero_copy_listeners,
                ..old(self).transport()
            }),
            ({
                let sink = borrowed_parts(sink_filter);
                let registry = old(self).transport().zero_copy_listeners@;
                if registry.has(source_filter@, sink, zero_copy_listener) {
                    &&& final(self).transport().zero_copy_listeners@ == registry
                    &&& final(self).loopbacks() == old(self).loopbacks()
                    &&& fails_with(result, UCode::AlreadyExists, already_registered())
                } else if registry.next_id == u64::MAX {
                    &&& final(self).transport().zero_copy_listeners@ == registry
                    &&& final(self).loopbacks() == old(self).loopbacks()
                    &&& fails_with(
                        result,
                        UCode::ResourceExhausted,
                        "no registration numbers are left"@,
                    )
                } else {
                    &&& result == Ok::<u64, UStatus>(registry.next_id)
                    &&& final(self).transport().zero_copy_listeners@ == registry.with_registration(
                        source_filter@,
                        sink,
                        zero_copy_listener,
                        first_subscription(subscription),
                    )
                    &&& final(self).loopbacks() == old(self).loopbacks().push(
                        LoopbackView {
                            source: source_filter@,
                            sink,
                            owned_listener,
                            zero_copy_listener,
                        },
                    )
                }
            }),
            result is Ok <==> final(self).loopbacks().len() == old(self).loopbacks().len() + 1,
            result is Ok <==> old(self).transport().zero_copy_listeners@.next_id < u64::MAX
                && forall|i: int|
                #![trigger old(self).transport().zero_copy_listeners@.registrations[i]]
                0 <= i < old(self).transport().zero_copy_listeners@.registrations.len() ==> {
                    let known = old(self).transport().zero_copy_listeners@.registrations[i];
                    known.source != source_filter@ || known.sink != borrowed_parts(sink_filter)
                        || known.listener != zero_copy_listener
                },
    {
        let id: u64 = self.inner.zero_copy_listeners.register(
            source_filter,
            sink_filter,
            zero_copy_listener,
            subscription,
        )?;
        self.listeners.push(source_filter, sink_filter, owned_listener, zero_copy_listener);
        Ok(id)
    }

    /// Unregisters a listener for owned frames once, and with it the zero-copy listener that stood
    /// for it; hands back the subscriptions that served it.
    pub fn unregister_encoded_owned_listener(
        &mut self,
        source_filter: &UUri,
        sink_filter: Option<&UUri>,
        owned_listener: u64,
    ) -> (result: Result<NamedTable<Subscription>, UStatus>)
        requires
            old(self).transport().wf(),
        ensures
            final(self).transport().wf(),
            final(self).transport() == (Iceoryx2PubSub {
                zero_copy_listeners: final(self).transport().zero_copy_listeners,
                ..old(self).transport()
            }),
            ({
                let sink = borrowed_parts(sink_filter);
                let registry = old(self).transport().zero_copy_listeners@;
                let after = final(self).transport().zero_copy_listeners@;
                if has_no_loopback(
                    old(self).loopbacks(),
                    source_filter@,
                    sink,
                    owned_listener,
                ) {
                    &&& after == registry
                    &&& final(self).loopbacks() == old(self).loopbacks()
                    &&& fails_with(
                        result,
                        UCode::NotFound,
                        "owned loopback listener not registered"@,
                    )
                } else {
                    exists|i: int| #[trigger]
                        is_first_loopback(
                            old(self).loopbacks(),
                            source_filter@,
                            sink,
                            owned_listener,
                            i,
                        ) && final(self).loopbacks() == old(self).loopbacks().remove(i) && {
                            let listener = old(self).loopbacks()[i].zero_copy_listener;
                            if registry.has(source_filter@, sink, listener) {
                                &&& after == registry.without_registration(
                                    source_filter@,
                                    sink,
                                    listener,
                                )
                                &&& result matches Ok(subscribers) && subscribers.wf()
                                    && subscription_views(subscribers@)
                                    == registry.registrations[registry.place(
                                    source_filter@,
                                    sink,
                                    listener,
                                )].subscribers
                            } else {
                                after == registry && fails_with(
                                    result,
                                    UCode::NotFound,
                                    not_registered(),
                                )
                            }
                        }
                }
            }),
            final(self).loopbacks().len() < old(self).loopbacks().len() <==> exists|i: int|
                #![trigger old(self).loopbacks()[i]]
                0 <= i < old(self).loopbacks().len() && old(self).loopbacks()[i].source
                    == source_filter@ && old(self).loopbacks()[i].sink == borrowed_parts(
                    sink_filter,
                ) && old(self).loopbacks()[i].owned_listener == owned_listener,
    {
        let zero_copy_listener: u64 = self.listeners.remove(
            source_filter,
            sink_filter,
            owned_listener,
        )?;
        self.inner.zero_copy_listeners.unregister(source_filter, sink_filter, zero_copy_listener)
    }
}

/// An owned frame that is sent comes back as it was, wherever the sample lies in the memory of the
/// receiver: the metadata and the payload are those that were sent, byte for byte and without
/// padding. Where there was no payload, an empty one comes back.
pub proof fn owned_frame_comes_back(
    sent: FrameView,
    base: nat,
    lent: Seq<u8>,
    received: ReceivedSample,
    source: UriParts,
    sink: Option<UriParts>,
)
    requires
        owned_fault(sent, base, lent.len()) is None,
        received.header == owned_layout(sent, base).header(),
        received.len == lent.len(),
        received.address + lent.len() <= usize::MAX,
    ensures
        lease_fault(received) is None,
        sent_sample(sent, base, lent).len() == lent.len(),
        lease_of(received, source, sink).layout.end() <= lent.len(),
        leased_frame(lease_of(received, source, sink), sent_sample(sent, base, lent))
            == returned_frame(sent),
{
    let metadata = sent.encoded_metadata;
    let payload = returned_frame(sent).payload->0;
    let layout = owned_layout(sent, base);
    let filled = sent_sample(sent, base, lent);
    assert(layout.fits(lent.len()));
    assert(filled.len() == lent.len());
    assert(layout.metadata_of(filled) =~= metadata);
    assert(layout.payload_of(filled) =~= payload);
    sent_frame_is_received(base, metadata, payload, 1, filled, received, source, sink);
    written_layout_reads_back(layout, lent.len());
}

/// An owned frame reaches the receiver that asks for its source and its sink: the receiver asks
/// the very service that the frame is sent through, and the sample that it is given there ends the
/// receive with the frame that was sent.
pub proof fn owned_frame_reaches_its_receiver(
    sent: PreparedFrameView,
    host: Seq<char>,
    base: nat,
    lent: Seq<u8>,
    pull: PullReceive,
    queues: QueueStateView,
    capacity: nat,
    policy: Iceoryx2PullMismatchQueueFullPolicy,
    received: ReceivedSample,
    queues_after: QueueStateView,
    released: Option<Iceoryx2RxLease>,
    progress: PullProgress,
)
    requires
        !sent.source.has_wildcard(),
        is_pull_start(sent.source, sent.sink, host, Ok(PullStart::Ready(pull))),
        owned_fault(sent.frame, base, lent.len()) is None,
        received.header == owned_layout(sent.frame, base).header(),
        received.len == lent.len(),
        received.address + lent.len() <= usize::MAX,
        is_pull_progress(
            pull@,
            queues,
            capacity,
            policy,
            received,
            queues_after,
            released,
            progress,
        ),
    ensures
        pull@.routes.len() == 1,
        mapped_service_name(
            loan_request(sent).source,
            loan_request(sent).sink,
            MessagingPattern::PublishSubscribe,
            host,
        ) == Ok::<Seq<char>, (UCode, Seq<char>)>(pull@.routes[0].name),
        progress is Deliver,
        queues_after == queues,
        leased_frame(progress->Deliver_0@, sent_sample(sent.frame, base, lent)) == returned_frame(
            sent.frame,
        ),
{
    let route = pull@.routes[0];
    name_gives_its_sink_back(sent.source, sent.sink, host, route.name);
    sink_filter_accepts_itself(pull@.sink);
    owned_frame_comes_back(sent.frame, base, lent, received, route.source, route.sink);
}

/// Adding a listener that was not there and removing it again leaves the list as it was.
pub proof fn removing_undoes_adding(list: Seq<u64>, listener: u64, i: int)
    requires
        !list.contains(listener),
        is_first_place(list.push(listener), listener, i),
    ensures
        list.push(listener).remove(i) == list,
{
    let longer = list.push(listener);
    if i < list.len() {
        assert(list[i] == listener);
    }
    assert(longer.remove(i) =~= list);
}

/// The bytes of an optional payload are those of the payload, and its length is their number.
pub proof fn payload_is_its_bytes(bytes: Bytes)
    ensures
        payload_bytes(Some(bytes)) == Some(bytes_of(bytes)),
        payload_bytes(None) is None,
        optional_len(Some(bytes_of(bytes))) == bytes_of(bytes).len(),
        optional_len(None) == 0,
{
}

/// The loan for an owned frame is asked for with its source, its sink and its metadata, and with
/// room for its payload at any address.
pub proof fn owned_frame_asks_for_its_own_room(frame: PreparedFrameView)
    ensures
        ({
            let request = loan_request(frame);
            &&& request.source == frame.source
            &&& request.sink == frame.sink
            &&& request.encoded_metadata == frame.frame.encoded_metadata
            &&& frame.frame.payload is Some ==> request.payload_len
                == frame.frame.payload->0.len()
            &&& frame.frame.payload is None ==> request.payload_len == 0
            &&& request.payload_alignment == 1
        }),
{
}

/// An owned frame needs no padding: its payload follows its metadata, at whatever address.
pub proof fn owned_frame_has_no_padding(frame: FrameView, base: nat)
    ensures
        ({
            let layout = owned_layout(frame, base);
            &&& layout.metadata_len == frame.encoded_metadata.len()
            &&& layout.payload_offset == frame.encoded_metadata.len()
            &&& frame.payload is Some ==> layout.payload_len == frame.payload->0.len()
            &&& frame.payload is None ==> layout.payload_len == 0
            &&& layout.payload_alignment == 1
        }),
{
    frame_is_laid_out_as_asked_for(
        base,
        frame.encoded_metadata.len(),
        optional_len(frame.payload),
        1,
    );
}

/// An owned frame is laid out exactly if its metadata end at a machine address and it is no longer
/// than the sample.
pub proof fn owned_frame_is_laid_out_exactly_if(frame: FrameView, base: nat, sample_len: nat)
    requires
        sample_len <= usize::MAX,
    ensures
        frame.payload is Some ==> (owned_fault(frame, base, sample_len) is None <==> base
            + frame.encoded_metadata.len() <= usize::MAX && frame.encoded_metadata.len()
            + frame.payload->0.len() <= sample_len),
        frame.payload is None ==> (owned_fault(frame, base, sample_len) is None <==> base
            + frame.encoded_metadata.len() <= usize::MAX && frame.encoded_metadata.len()
            <= sample_len),
        base + frame.encoded_metadata.len() > usize::MAX ==> owned_fault(frame, base, sample_len)
            == Some("payload address overflow"@),
{
    reveal(vstd::arithmetic::power2::is_pow2);
    owned_frame_has_no_padding(frame, base);
    frame_is_laid_out_exactly_if(
        base,
        frame.encoded_metadata.len(),
        optional_len(frame.payload),
        1,
        sample_len,
    );
}

/// Copying the payload into a sample changes the bytes of the payload alone, to those of the
/// payload.
pub proof fn payload_is_copied_into_its_place(
    layout: LayoutView,
    sample: Seq<u8>,
    payload: Seq<u8>,
    i: int,
)
    requires
        payload.len() == layout.payload_len,
        layout.payload_offset + layout.payload_len <= sample.len(),
        0 <= i < sample.len(),
    ensures
        with_payload(layout, sample, None) == sample,
        with_payload(layout, sample, Some(payload)).len() == sample.len(),
        layout.payload_offset <= i < layout.payload_offset + payload.len() ==> with_payload(
            layout,
            sample,
            Some(payload),
        )[i] == payload[i - layout.payload_offset],
        i < layout.payload_offset || layout.payload_offset + payload.len() <= i ==> with_payload(
            layout,
            sample,
            Some(payload),
        )[i] == sample[i],
{
}

/// A sent sample holds the metadata, then the payload if there is one, and then what it held when
/// it was lent.
pub proof fn sent_sample_holds_metadata_and_payload(
    frame: FrameView,
    base: nat,
    lent: Seq<u8>,
    payload: Seq<u8>,
    i: int,
)
    requires
        frame.payload is Some ==> payload == frame.payload->0,
        frame.payload is None ==> payload.len() == 0,
        frame.encoded_metadata.len() + payload.len() <= lent.len(),
        0 <= i < lent.len(),
    ensures
        ({
            let sent = sent_sample(frame, base, lent);
            let metadata = frame.encoded_metadata;
            &&& sent.len() == lent.len()
            &&& i < metadata.len() ==> sent[i] == metadata[i]
            &&& metadata.len() <= i < metadata.len() + payload.len() ==> sent[i] == payload[i
                - metadata.len()]
            &&& metadata.len() + payload.len() <= i ==> sent[i] == lent[i]
        }),
{
    owned_frame_has_no_padding(frame, base);
}

/// The frame of a lease has the bytes at the places that the layout of the lease says.
pub proof fn leased_frame_is_read_from_its_places(lease: LeaseView, sample: Seq<u8>, i: int)
    requires
        lease.layout.metadata_len <= sample.len(),
        lease.layout.payload_offset + lease.layout.payload_len <= sample.len(),
    ensures
        ({
            let frame = leased_frame(lease, sample);
            &&& frame.encoded_metadata.len() == lease.layout.metadata_len
            &&& 0 <= i < lease.layout.metadata_len ==> frame.encoded_metadata[i] == sample[i]
            &&& frame.payload is Some
            &&& frame.payload->0.len() == lease.layout.payload_len
            &&& 0 <= i < lease.layout.payload_len ==> frame.payload->0[i]
                == sample[lease.layout.payload_offset + i]
        }),
{
}

/// A frame that comes back has the metadata that it had, and the payload that it had, or an empty
/// one for none.
pub proof fn returned_frame_is_the_sent_one(frame: FrameView)
    ensures
        returned_frame(frame).encoded_metadata == frame.encoded_metadata,
        frame.payload is Some ==> returned_frame(frame).payload == frame.payload,
        frame.payload is None ==> returned_frame(frame).payload is Some && returned_frame(
            frame,
        ).payload->0.len() == 0,
{
}

/// The first place of a number holds it, and stands before every other place that does; there is
/// one where the number is in the list.
pub proof fn first_place_is_before_all_others(list: Seq<u64>, number: u64, i: int, k: int)
    requires
        0 <= k < list.len(),
        list[k] == number,
    ensures
        is_first_place(list, number, i) ==> 0 <= i <= k && list[i] == number,
        exists|place: int| #[trigger] is_first_place(list, number, place),
    decreases k,
{
    if exists|j: int| 0 <= j < k && list[j] == number {
        let j = choose|j: int| 0 <= j < k && list[j] == number;
        first_place_is_before_all_others(list, number, i, j);
    } else {
        assert(is_first_place(list, number, k));
    }
}

/// The pairs of listeners and frames are theirs, place by place.
pub proof fn delivery_pairs_are_the_pairs(pairs: Seq<(u64, EncodedOwnedFrame)>, i: int)
    requires
        0 <= i < pairs.len(),
    ensures
        delivery_pairs(pairs).len() == pairs.len(),
        delivery_pairs(pairs)[i].0 == pairs[i].0,
        delivery_pairs(pairs)[i].1 == pairs[i].1@,
{
}

/// A registration for owned frames has the identity of its own source filter, sink filter and
/// listener, and no other.
pub proof fn loopback_has_one_identity(
    registration: LoopbackView,
    source: UriParts,
    sink: Option<UriParts>,
    owned_listener: u64,
)
    ensures
        registration.has_identity(
            registration.source,
            registration.sink,
            registration.owned_listener,
        ),
        registration.has_identity(source, sink, owned_listener) ==> source == registration.source
            && sink == registration.sink && owned_listener == registration.owned_listener,
{
}

/// Where a listener for owned frames is registered for the filters, the first such registration
/// stands before every other one; a registration for another source, another sink or another
/// listener is no such registration.
pub proof fn first_loopback_is_before_all_others(
    registrations: Seq<LoopbackView>,
    source: UriParts,
    sink: Option<UriParts>,
    owned_listener: u64,
    i: int,
    k: int,
)
    requires
        0 <= k < registrations.len(),
        registrations[k].source == source,
        registrations[k].sink == sink,
        registrations[k].owned_listener == owned_listener,
    ensures
        is_first_loopback(registrations, source, sink, owned_listener, i) ==> 0 <= i <= k
            && registrations[i].source == source && registrations[i].sink == sink
            && registrations[i].owned_listener == owned_listener,
        exists|place: int| #[trigger]
            is_first_loopback(registrations, source, sink, owned_listener, place),
        !has_no_loopback(registrations, source, sink, owned_listener),
    decreases k,
{
    assert(registrations[k].has_identity(source, sink, owned_listener));
    if exists|j: int|
        0 <= j < k && (#[trigger] registrations[j]).has_identity(source, sink, owned_listener) {
        let j = choose|j: int|
            0 <= j < k && (#[trigger] registrations[j]).has_identity(source, sink, owned_listener);
        first_loopback_is_before_all_others(registrations, source, sink, owned_listener, i, j);
    } else {
        assert(is_first_loopback(registrations, source, sink, owned_listener, k));
    }
}

/// A listener for owned frames is not registered for the filters where every registration is for
/// another source, another sink or another listener.
pub proof fn loopbacks_for_other_filters_do_not_count(
    registrations: Seq<LoopbackView>,
    source: UriParts,
    sink: Option<UriParts>,
    owned_listener: u64,
)
    requires
        forall|k: int|
            #![trigger registrations[k]]
            0 <= k < registrations.len() ==> registrations[k].source != source
                || registrations[k].sink != sink || registrations[k].owned_listener
                != owned_listener,
    ensures
        has_no_loopback(registrations, source, sink, owned_listener),
        forall|i: int|
            !(#[trigger] is_first_loopback(registrations, source, sink, owned_listener, i)),
{
}

} // verus!
