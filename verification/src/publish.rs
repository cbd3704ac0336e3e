//! Loans for sending: from the request for a loan to the sample that the frame is laid out in.
//!
//! The steps are: find or create the publisher of the service, tell the receivers on the same bus
//! that the service exists, borrow a sample, and wait until enough subscribers are connected. The
//! sample is borrowed before the wait, so that subscribers meet the data segment that the frame
//! lies in.

use crate::config::{Bus, NamespaceView};
use crate::frame::{
    loan_error_text, loan_fault, map_loan_error, worst_case_aligned_sample_len, worst_case_len,
    worst_case_sample_has_room, LoanError, PayloadAlignment,
};
use crate::listeners::{ListenerRegistry, RegistryView};
use crate::named_table::NamedTable;
use crate::pull::PendingSourceFilters;
use crate::service_attributes::{
    accepts_service, filter_decides_on_published_source, normalized,
    published_source_is_spelled_out, required_attributes, requirements,
    source_attribute_verifier_on, source_fault, source_pairs, spelled_source,
};
use crate::service_name_mapping::{
    compute_service_name_on, mapped_service_name, resolved_authority, MessagingPattern,
};
use crate::status::{UCode, UStatus};
use crate::text::{decimal, encode_decimal};
use crate::uprotocolheader::{error_text, frame_contract_error_to_status, FrameContractError};
use crate::uuri::{accepted_authority, borrowed_uri, optional_parts, UUri, UriParts};
use iceoryx2::service::attribute::AttributeVerifier;
use vstd::arithmetic::power2::is_pow2;
use vstd::prelude::*;
use vstd::string::*;

verus! {

/// A request for a loan: the source and the sink of the message, its encoded metadata, and the
/// length and the alignment of its payload.
pub struct PreparedTxLoanSpec {
    source: UUri,
    sink: Option<UUri>,
    encoded_metadata: Vec<u8>,
    payload_len: usize,
    payload_alignment: PayloadAlignment,
}

/// The parts of a request for a loan.
pub struct LoanSpecView {
    pub source: UriParts,
    pub sink: Option<UriParts>,
    pub encoded_metadata: Seq<u8>,
    pub payload_len: nat,
    pub payload_alignment: nat,
}

impl View for PreparedTxLoanSpec {
    type V = LoanSpecView;

    closed spec fn view(&self) -> LoanSpecView {
        LoanSpecView {
            source: self.source@,
            sink: optional_parts(self.sink),
            encoded_metadata: self.encoded_metadata@,
            payload_len: self.payload_len as nat,
            payload_alignment: self.payload_alignment@,
        }
    }
}

impl PreparedTxLoanSpec {
    /// The request with the given parts, if the alignment is a power of two.
    pub fn from_encoded_parts(
        source: UUri,
        sink: Option<UUri>,
        encoded_metadata: Vec<u8>,
        payload_len: usize,
        payload_alignment: usize,
    ) -> (result: Result<PreparedTxLoanSpec, UStatus>)
        ensures
            match result {
                Ok(spec) => is_pow2(payload_alignment as int) && spec@ == (LoanSpecView {
                    source: source@,
                    sink: optional_parts(sink),
                    encoded_metadata: encoded_metadata@,
                    payload_len: payload_len as nat,
                    payload_alignment: payload_alignment as nat,
                }),
                Err(status) => !is_pow2(payload_alignment as int) && status.says(
                    UCode::InvalidArgument,
                    error_text(FrameContractError::InvalidAlignment(payload_alignment)),
                ),
            },
    {
        match PayloadAlignment::new(payload_alignment) {
            Ok(payload_alignment) => Ok(
                PreparedTxLoanSpec {
                    source,
                    sink,
                    encoded_metadata,
                    payload_len,
                    payload_alignment,
                },
            ),
            Err(error) => Err(frame_contract_error_to_status(error)),
        }
    }

    /// The source of the message.
    pub fn source(&self) -> (source: &UUri)
        ensures
            source@ == self@.source,
    {
        &self.source
    }

    /// The encoded metadata of the message.
    pub fn encoded_metadata(&self) -> (bytes: &[u8])
        ensures
            bytes@ == self@.encoded_metadata,
    {
        self.encoded_metadata.as_slice()
    }

    /// The length of the payload.
    pub fn payload_len(&self) -> (len: usize)
        ensures
            len == self@.payload_len,
    {
        self.payload_len
    }

    /// The alignment of the payload.
    pub fn payload_alignment(&self) -> (alignment: PayloadAlignment)
        ensures
            alignment@ == self@.payload_alignment,
    {
        self.payload_alignment
    }

    /// The service that carries the message, on a host of the given name.
    pub fn service_name(&self, host: &str) -> (result: Result<String, UStatus>)
        ensures
            crate::service_name_mapping::outcome(
                result,
                mapped_service_name(
                    self@.source,
                    self@.sink,
                    MessagingPattern::PublishSubscribe,
                    host@,
                ),
            ),
    {
        compute_service_name_on(
            &self.source,
            borrowed_uri(&self.sink),
            MessagingPattern::PublishSubscribe,
            host,
        )
    }
}

/// Where the publisher of a service comes from.
pub enum PublisherAccess {
    /// It is there.
    Existing(u64),
    /// It is to be created, in a service with the given attributes.
    Create(AttributeVerifier),
}

/// Whether `result` is where the publisher of a service comes from, or the failure.
pub open spec fn is_publisher_access(
    publishers: Map<Seq<char>, u64>,
    service_name: Seq<char>,
    source: UriParts,
    host: Seq<char>,
    result: Result<PublisherAccess, UStatus>,
) -> bool {
    if publishers.dom().contains(service_name) {
        result matches Ok(PublisherAccess::Existing(publisher)) && publisher
            == publishers[service_name]
    } else {
        match (result, source_fault(source, host)) {
            (Ok(PublisherAccess::Create(verifier)), None) => required_attributes(verifier)
                == requirements(source_pairs(source, host)),
            (Err(status), Some(message)) => status.says(UCode::InvalidArgument, message),
            _ => false,
        }
    }
}

/// Where the publisher of a service comes from, on a host of the given name.
pub fn publisher_access(
    publishers: &NamedTable<u64>,
    service_name: &str,
    source: &UUri,
    host: &str,
) -> (result: Result<PublisherAccess, UStatus>)
    requires
        publishers.wf(),
    ensures
        is_publisher_access(publishers@, service_name@, source@, host@, result),
{
    match publishers.get(service_name) {
        Some(publisher) => Ok(PublisherAccess::Existing(*publisher)),
        None => match source_attribute_verifier_on(source, host) {
            Ok(verifier) => Ok(PublisherAccess::Create(verifier)),
            Err(status) => Err(status),
        },
    }
}

/// A subscriber that a receiver lacks for the service of a source.
#[derive(Clone, Copy, Debug, PartialEq, Eq, Structural)]
pub enum SourceSubscription {
    /// The subscriber for pull receives.
    Pull,
    /// The subscriber of the registration at this place.
    Listener(usize),
    /// None is lacking.
    Complete,
}

/// Whether one of the filters matches a source.
pub open spec fn any_filter_matches(filters: Seq<UriParts>, source: UriParts) -> bool {
    exists|i: int| 0 <= i < filters.len() && (#[trigger] filters[i]).matches(source)
}

/// Whether `next` is the first subscriber that a receiver lacks for the service of a source.
pub open spec fn is_next_source_subscription(
    pending: Seq<UriParts>,
    pull_subscribers: Map<Seq<char>, u64>,
    listeners: RegistryView,
    service_name: Seq<char>,
    source: UriParts,
    next: SourceSubscription,
) -> bool {
    let pull = any_filter_matches(pending, source) && !pull_subscribers.dom().contains(
        service_name,
    );
    match next {
        SourceSubscription::Pull => pull,
        SourceSubscription::Listener(i) => {
            &&& !pull
            &&& i < listeners.registrations.len()
            &&& listeners.registrations[i as int].lacks_source(service_name, source)
            &&& forall|k: int|
                0 <= k < i ==> !(#[trigger] listeners.registrations[k]).lacks_source(
                    service_name,
                    source,
                )
        },
        SourceSubscription::Complete => {
            &&& !pull
            &&& forall|k: int|
                0 <= k < listeners.registrations.len() ==> !(
                #[trigger] listeners.registrations[k]).lacks_source(service_name, source)
        },
    }
}

/// The first subscriber that a receiver lacks for the service of a source.
pub fn next_source_subscription(
    pending: &PendingSourceFilters,
    pull_subscribers: &NamedTable<u64>,
    listeners: &ListenerRegistry,
    service_name: &str,
    source: &UUri,
) -> (next: SourceSubscription)
    requires
        pull_subscribers.wf(),
        listeners.wf(),
    ensures
        is_next_source_subscription(
            pending@,
            pull_subscribers@,
            listeners@,
            service_name@,
            source@,
            next,
        ),
{
    if pending.any_matches(source) && !pull_subscribers.contains(service_name) {
        return SourceSubscription::Pull;
    }
    match listeners.next_subscription_for_source(service_name, source) {
        Some(i) => SourceSubscription::Listener(i),
        None => SourceSubscription::Complete,
    }
}

/// Whether a loan comes with written or with unwritten bytes.
#[derive(Clone, Copy, Debug, PartialEq, Eq, Structural)]
pub enum LoanKind {
    Initialized,
    Uninitialized,
}

/// How far a loan has come.
#[derive(Clone, Copy, Debug, PartialEq, Eq, Structural)]
pub enum TxLoanState {
    /// The publisher is looked for.
    AwaitingPublisher,
    /// Receivers are told of the service.
    AwaitingNotification { publisher: u64 },
    /// A sample is borrowed.
    AwaitingSample { publisher: u64 },
    /// Subscribers connect.
    AwaitingSubscribers { publisher: u64 },
    /// The loan was made or has failed.
    Finished,
}

/// What happened on the way to a loan.
pub enum TxLoanEvent {
    /// The publisher was found or created.
    Publisher(u64),
    /// Receivers were told of the service.
    Notified,
    /// A sample was borrowed.
    Lent,
    /// No sample was borrowed.
    NotLent(LoanError),
    /// So many subscribers are connected, so many nanoseconds after the sample was borrowed.
    Subscribers { count: usize, elapsed_nanos: u128 },
    /// Something failed that ends the loan.
    Failed(UStatus),
}

/// What is to be done next for a loan.
pub enum TxLoanAction {
    /// Receivers are to be told of the service.
    Notify,
    /// A sample of so many bytes is to be borrowed from the publisher.
    Lend { publisher: u64, sample_len: usize },
    /// The subscribers of the publisher are to be counted.
    CountSubscribers { publisher: u64 },
    /// The frame is to be laid out in the borrowed sample.
    LayOut,
    /// The loan ends with this failure.
    Fail(UStatus),
}

/// What a loan needs to know of its request and of the settings of the transport.
#[derive(Clone, Copy, Debug, PartialEq, Eq)]
pub struct TxLoanTerms {
    pub kind: LoanKind,
    pub metadata_len: usize,
    pub payload_len: usize,
    pub alignment: PayloadAlignment,
    pub minimum_subscribers: usize,
    pub timeout_nanos: u128,
}

/// The text of the operation that borrows a sample.
pub open spec fn loan_operation(kind: LoanKind) -> Seq<char> {
    match kind {
        LoanKind::Initialized => "loan sample"@,
        LoanKind::Uninitialized => "loan uninitialized sample"@,
    }
}

/// The message where too few subscribers are connected in time.
pub open spec fn not_ready(count: nat, minimum: nat) -> Seq<char> {
    "publisher readiness timed out with "@ + decimal(count) + " of "@ + decimal(minimum)
        + " subscribers"@
}

/// Whether `after` and `action` are what follows in `state` on `event`.
pub open spec fn is_tx_step(
    terms: TxLoanTerms,
    state: TxLoanState,
    event: TxLoanEvent,
    after: TxLoanState,
    action: TxLoanAction,
) -> bool {
    let sample_len = worst_case_len(
        terms.metadata_len as nat,
        terms.payload_len as nat,
        terms.alignment@,
    );
    match (state, event) {
        (_, TxLoanEvent::Failed(failure)) => {
            &&& after == TxLoanState::Finished
            &&& action matches TxLoanAction::Fail(status) && status == failure
        },
        (TxLoanState::AwaitingPublisher, TxLoanEvent::Publisher(publisher)) => {
            &&& after == (TxLoanState::AwaitingNotification { publisher })
            &&& action is Notify
        },
        (TxLoanState::AwaitingNotification { publisher }, TxLoanEvent::Notified) => if sample_len
            > usize::MAX {
            &&& after == TxLoanState::Finished
            &&& action matches TxLoanAction::Fail(status) && status.says(
                UCode::InvalidArgument,
                "sample length overflow"@,
            )
        } else {
            &&& after == (TxLoanState::AwaitingSample { publisher })
            &&& action matches TxLoanAction::Lend { publisher: lender, sample_len: len } && lender
                == publisher && len == sample_len
        },
        (TxLoanState::AwaitingSample { publisher }, TxLoanEvent::Lent) => {
            if terms.minimum_subscribers == 0 {
                after == TxLoanState::Finished && action is LayOut
            } else {
                &&& after == (TxLoanState::AwaitingSubscribers { publisher })
                &&& action matches TxLoanAction::CountSubscribers { publisher: counted } && counted
                    == publisher
            }
        },
        (TxLoanState::AwaitingSample { .. }, TxLoanEvent::NotLent(error)) => {
            &&& after == TxLoanState::Finished
            &&& action matches TxLoanAction::Fail(status) && status.says(
                if error == LoanError::InternalFailure {
                    UCode::Internal
                } else {
                    UCode::ResourceExhausted
                },
                "failed to "@ + loan_operation(terms.kind) + ": "@ + loan_error_text(error),
            )
        },
        (
            TxLoanState::AwaitingSubscribers { publisher },
            TxLoanEvent::Subscribers { count, elapsed_nanos },
        ) => if count >= terms.minimum_subscribers {
            after == TxLoanState::Finished && action is LayOut
        } else if elapsed_nanos >= terms.timeout_nanos {
            &&& after == TxLoanState::Finished
            &&& action matches TxLoanAction::Fail(status) && status.says(
                UCode::DeadlineExceeded,
                not_ready(count as nat, terms.minimum_subscribers as nat),
            )
        } else {
            &&& after == state
            &&& action matches TxLoanAction::CountSubscribers { publisher: counted } && counted
                == publisher
        },
        _ => {
            &&& after == TxLoanState::Finished
            &&& action matches TxLoanAction::Fail(status) && status.says(
                UCode::Internal,
                "loan step out of order"@,
            )
        },
    }
}

/// The status where too few subscribers are connected in time.
fn not_ready_status(count: usize, minimum: usize) -> (status: UStatus)
    ensures
        status.says(UCode::DeadlineExceeded, not_ready(count as nat, minimum as nat)),
{
    let message: String = String::from_str("publisher readiness timed out with ").concat(
        encode_decimal(count).as_str(),
    ).concat(" of ").concat(encode_decimal(minimum).as_str()).concat(" subscribers");
    UStatus { code: UCode::DeadlineExceeded, message }
}

impl TxLoanTerms {
    /// What follows in `state` on `event`.
    pub fn step(&self, state: TxLoanState, event: TxLoanEvent) -> (next: (
        TxLoanState,
        TxLoanAction,
    ))
        ensures
            is_tx_step(*self, state, event, next.0, next.1),
    {
        match (state, event) {
            (_, TxLoanEvent::Failed(status)) => (
                TxLoanState::Finished,
                TxLoanAction::Fail(status),
            ),
            (TxLoanState::AwaitingPublisher, TxLoanEvent::Publisher(publisher)) => (
                TxLoanState::AwaitingNotification { publisher },
                TxLoanAction::Notify,
            ),
            (TxLoanState::AwaitingNotification { publisher }, TxLoanEvent::Notified) => {
                match worst_case_aligned_sample_len(
                    self.metadata_len,
                    self.payload_len,
                    self.alignment,
                ) {
                    Ok(sample_len) => (
                        TxLoanState::AwaitingSample { publisher },
                        TxLoanAction::Lend { publisher, sample_len },
                    ),
                    Err(status) => (TxLoanState::Finished, TxLoanAction::Fail(status)),
                }
            },
            (TxLoanState::AwaitingSample { publisher }, TxLoanEvent::Lent) => {
                if self.minimum_subscribers == 0 {
                    (TxLoanState::Finished, TxLoanAction::LayOut)
                } else {
                    (
                        TxLoanState::AwaitingSubscribers { publisher },
                        TxLoanAction::CountSubscribers { publisher },
                    )
                }
            },
            (TxLoanState::AwaitingSample { .. }, TxLoanEvent::NotLent(error)) => {
                let operation: &'static str = match self.kind {
                    LoanKind::Initialized => "loan sample",
                    LoanKind::Uninitialized => "loan uninitialized sample",
                };
                (TxLoanState::Finished, TxLoanAction::Fail(map_loan_error(error, operation)))
            },
            (
                TxLoanState::AwaitingSubscribers { publisher },
                TxLoanEvent::Subscribers { count, elapsed_nanos },
            ) => {
                if count >= self.minimum_subscribers {
                    (TxLoanState::Finished, TxLoanAction::LayOut)
                } else if elapsed_nanos >= self.timeout_nanos {
                    (
                        TxLoanState::Finished,
                        TxLoanAction::Fail(not_ready_status(count, self.minimum_subscribers)),
                    )
                } else {
                    (state, TxLoanAction::CountSubscribers { publisher })
                }
            },
            _ => (
                TxLoanState::Finished,
                TxLoanAction::Fail(
                    UStatus::fail_with_code(UCode::Internal, "loan step out of order"),
                ),
            ),
        }
    }
}

/// A loan is made only when a sample was borrowed, and when as many subscribers are connected as
/// the settings ask for.
pub proof fn loan_is_made_only_when_ready(
    terms: TxLoanTerms,
    state: TxLoanState,
    event: TxLoanEvent,
    after: TxLoanState,
    action: TxLoanAction,
)
    requires
        is_tx_step(terms, state, event, after, action),
        action is LayOut,
    ensures
        after == TxLoanState::Finished,
        match event {
            TxLoanEvent::Lent => terms.minimum_subscribers == 0,
            TxLoanEvent::Subscribers { count, .. } => count >= terms.minimum_subscribers,
            _ => false,
        },
{
}

/// The wait for subscribers is bounded: once the time is up, the next count ends the loan, with a
/// loan or with a failure.
pub proof fn wait_for_subscribers_is_bounded(
    terms: TxLoanTerms,
    state: TxLoanState,
    event: TxLoanEvent,
    after: TxLoanState,
    action: TxLoanAction,
)
    requires
        is_tx_step(terms, state, event, after, action),
        event is Subscribers,
        event->Subscribers_elapsed_nanos >= terms.timeout_nanos,
    ensures
        after == TxLoanState::Finished,
        action is LayOut || action is Fail,
{
}

/// Without a minimum of subscribers a borrowed sample is the loan, whether or not there is a peer.
pub proof fn loan_without_minimum_needs_no_peer(
    terms: TxLoanTerms,
    publisher: u64,
    after: TxLoanState,
    action: TxLoanAction,
)
    requires
        terms.minimum_subscribers == 0,
        is_tx_step(
            terms,
            TxLoanState::AwaitingSample { publisher },
            TxLoanEvent::Lent,
            after,
            action,
        ),
    ensures
        action is LayOut,
{
}

/// The sample that is borrowed for a loan has room for the frame, at whatever address it lies.
pub proof fn borrowed_sample_has_room(
    terms: TxLoanTerms,
    state: TxLoanState,
    event: TxLoanEvent,
    after: TxLoanState,
    action: TxLoanAction,
    base: nat,
    sample_len: nat,
)
    requires
        is_tx_step(terms, state, event, after, action),
        action is Lend,
        is_pow2(terms.alignment@ as int),
        sample_len >= action->Lend_sample_len,
        base + sample_len <= usize::MAX,
    ensures
        loan_fault(
            base,
            terms.metadata_len as nat,
            terms.payload_len as nat,
            terms.alignment@,
            sample_len,
        ) is None,
{
    worst_case_sample_has_room(
        base,
        terms.metadata_len as nat,
        terms.payload_len as nat,
        terms.alignment@,
        sample_len,
    );
}

/// A receiver, by number, and the bus that it listens on.
pub struct BroadReceiver {
    receiver: u64,
    bus: Bus,
}

/// The parts of a receiver.
pub struct ReceiverView {
    pub receiver: u64,
    pub bus: NamespaceView,
}

impl View for BroadReceiver {
    type V = ReceiverView;

    closed spec fn view(&self) -> ReceiverView {
        ReceiverView { receiver: self.receiver, bus: self.bus@ }
    }
}

/// The receivers that are told of new services, each of them once.
pub struct BroadReceiverRegistry {
    receivers: Vec<BroadReceiver>,
}

impl View for BroadReceiverRegistry {
    type V = Seq<ReceiverView>;

    closed spec fn view(&self) -> Seq<ReceiverView> {
        self.receivers@.map_values(|receiver: BroadReceiver| receiver@)
    }
}

/// The numbers of receivers.
pub open spec fn numbers(receivers: Seq<ReceiverView>) -> Seq<u64> {
    receivers.map_values(|receiver: ReceiverView| receiver.receiver)
}

/// Those receivers that are alive, in their order.
pub open spec fn live_ones(receivers: Seq<ReceiverView>, alive: Seq<bool>) -> Seq<ReceiverView>
    decreases receivers.len(),
{
    if receivers.len() == 0 {
        Seq::empty()
    } else {
        let before = live_ones(receivers.drop_last(), alive);
        if alive[receivers.len() - 1] {
            before.push(receivers.last())
        } else {
            before
        }
    }
}

/// The numbers of the receivers that are alive and listen on a bus, in their order.
pub open spec fn listening_on(
    receivers: Seq<ReceiverView>,
    alive: Seq<bool>,
    bus: NamespaceView,
) -> Seq<u64>
    decreases receivers.len(),
{
    if receivers.len() == 0 {
        Seq::empty()
    } else {
        let before = listening_on(receivers.drop_last(), alive, bus);
        if alive[receivers.len() - 1] && receivers.last().bus == bus {
            before.push(receivers.last().receiver)
        } else {
            before
        }
    }
}

/// Those that are alive are among all, and each of them once if that holds of all.
proof fn lemma_live_ones(receivers: Seq<ReceiverView>, alive: Seq<bool>)
    ensures
        forall|number: u64| #[trigger]
            numbers(live_ones(receivers, alive)).contains(number) ==> numbers(receivers).contains(
                number,
            ),
        numbers(receivers).no_duplicates() ==> numbers(
            live_ones(receivers, alive),
        ).no_duplicates(),
    decreases receivers.len(),
{
    if receivers.len() > 0 {
        let rest = receivers.drop_last();
        lemma_live_ones(rest, alive);
        let before = numbers(live_ones(rest, alive));
        let all = numbers(live_ones(receivers, alive));
        let last = receivers.last().receiver;
        assert(numbers(receivers) =~= numbers(rest).push(last));
        assert(all =~= if alive[receivers.len() - 1] {
            before.push(last)
        } else {
            before
        });
        assert forall|number: u64| #[trigger] all.contains(number) implies numbers(
            receivers,
        ).contains(number) by {
            let i = choose|i: int| 0 <= i < all.len() && all[i] == number;
            if i < before.len() {
                assert(before[i] == number);
                assert(before.contains(number));
                let k = choose|k: int| 0 <= k < numbers(rest).len() && numbers(rest)[k] == number;
                assert(numbers(receivers)[k] == number);
            } else {
                assert(numbers(receivers)[receivers.len() - 1] == number);
            }
        }
        if numbers(receivers).no_duplicates() {
            assert forall|i: int, j: int|
                0 <= i < numbers(rest).len() && 0 <= j < numbers(rest).len() && i != j implies
                numbers(rest)[i] != numbers(rest)[j] by {
                assert(numbers(receivers)[i] == numbers(rest)[i]);
                assert(numbers(receivers)[j] == numbers(rest)[j]);
            }
            assert(numbers(rest).no_duplicates());
            assert forall|i: int, j: int| 0 <= i < j < all.len() implies all[i] != all[j] by {
                assert(before[i] == all[i]);
                if j == before.len() {
                    assert(before.contains(all[i]));
                    let k = choose|k: int|
                        0 <= k < numbers(rest).len() && numbers(rest)[k] == all[i];
                    assert(numbers(receivers)[k] == all[i]);
                    assert(numbers(receivers)[receivers.len() - 1] == all[j]);
                } else {
                    assert(before[j] == all[j]);
                }
            }
        }
    }
}

impl BroadReceiverRegistry {
    /// No receivers.
    pub fn new() -> (registry: Self)
        ensures
            registry@ == Seq::<ReceiverView>::empty(),
    {
        let registry = BroadReceiverRegistry { receivers: Vec::new() };
        proof {
            assert(registry@ =~= Seq::<ReceiverView>::empty());
        }
        registry
    }

    /// The numbers of the receivers, in the order in which they were registered.
    pub fn receivers(&self) -> (receivers: Vec<u64>)
        ensures
            receivers@ == numbers(self@),
    {
        let mut receivers: Vec<u64> = Vec::new();
        let ghost all = numbers(self@);
        let mut i: usize = 0;
        while i < self.receivers.len()
            invariant
                i <= self.receivers@.len(),
                all == numbers(self@),
                receivers@ =~= all.take(i as int),
            decreases self.receivers@.len() - i,
        {
            receivers.push(self.receivers[i].receiver);
            proof {
                assert(all.take(i + 1) =~= all.take(i as int).push(all[i as int]));
            }
            i = i + 1;
        }
        proof {
            assert(all.take(i as int) =~= all);
        }
        receivers
    }

    /// Forgets the receivers that are not alive.
    fn forget_dead(&mut self, alive: &Vec<bool>)
        requires
            alive@.len() == old(self)@.len(),
        ensures
            final(self)@ == live_ones(old(self)@, alive@),
            numbers(old(self)@).no_duplicates() ==> numbers(final(self)@).no_duplicates(),
    {
        let ghost all = self@;
        let mut kept: Vec<BroadReceiver> = Vec::new();
        let mut i: usize = 0;
        proof {
            lemma_live_ones(all, alive@);
            assert(kept@.map_values(|receiver: BroadReceiver| receiver@) =~= live_ones(
                all.take(0),
                alive@,
            ));
        }
        while i < self.receivers.len()
            invariant
                self@ == all,
                alive@.len() == all.len(),
                i <= all.len(),
                kept@.map_values(|receiver: BroadReceiver| receiver@) == live_ones(
                    all.take(i as int),
                    alive@,
                ),
            decreases all.len() - i,
        {
            proof {
                assert(all.take(i + 1).drop_last() =~= all.take(i as int));
                assert(all.take(i + 1).last() == self.receivers@[i as int]@);
            }
            if alive[i] {
                let ghost before = kept@;
                let known: &BroadReceiver = &self.receivers[i];
                let receiver = BroadReceiver { receiver: known.receiver, bus: known.bus.clone() };
                let ghost added = receiver@;
                kept.push(receiver);
                proof {
                    assert(kept@.map_values(|receiver: BroadReceiver| receiver@)
                        =~= before.map_values(|receiver: BroadReceiver| receiver@).push(added));
                }
            }
            i = i + 1;
        }
        proof {
            assert(all.take(i as int) =~= all);
        }
        self.receivers = kept;
    }

    /// Forgets the receivers that are not alive, and lists those that are and listen on the bus
    /// of a sender.
    pub fn live_receivers(&mut self, alive: &Vec<bool>, bus: &Bus) -> (receivers: Vec<u64>)
        requires
            alive@.len() == old(self)@.len(),
        ensures
            final(self)@ == live_ones(old(self)@, alive@),
            receivers@ == listening_on(old(self)@, alive@, bus@),
            numbers(old(self)@).no_duplicates() ==> numbers(final(self)@).no_duplicates(),
    {
        let ghost all = self@;
        let mut listed: Vec<u64> = Vec::new();
        let mut i: usize = 0;
        proof {
            assert(all.take(0) =~= Seq::<ReceiverView>::empty());
        }
        while i < self.receivers.len()
            invariant
                self@ == all,
                alive@.len() == all.len(),
                i <= all.len(),
                listed@ == listening_on(all.take(i as int), alive@, bus@),
            decreases all.len() - i,
        {
            proof {
                assert(all.take(i + 1).drop_last() =~= all.take(i as int));
                assert(all.take(i + 1).last() == self.receivers@[i as int]@);
            }
            if alive[i] && self.receivers[i].bus.is_same(bus) {
                listed.push(self.receivers[i].receiver);
            }
            i = i + 1;
        }
        proof {
            assert(all.take(i as int) =~= all);
        }
        self.forget_dead(alive);
        listed
    }

    /// Forgets the receivers that are not alive, and adds one that listens on a bus, if it is not
    /// there yet.
    pub fn register_broad_receiver(&mut self, receiver: u64, bus: &Bus, alive: &Vec<bool>)
        requires
            alive@.len() == old(self)@.len(),
        ensures
            ({
                let live = live_ones(old(self)@, alive@);
                final(self)@ == if numbers(live).contains(receiver) {
                    live
                } else {
                    live.push(ReceiverView { receiver, bus: bus@ })
                }
            }),
            numbers(final(self)@).contains(receiver),
            numbers(old(self)@).no_duplicates() ==> numbers(final(self)@).no_duplicates(),
    {
        self.forget_dead(alive);
        let ghost live = self@;
        let mut i: usize = 0;
        while i < self.receivers.len()
            invariant
                i <= self.receivers@.len(),
                self@ == live,
                live == live_ones(old(self)@, alive@),
                numbers(old(self)@).no_duplicates() ==> numbers(live).no_duplicates(),
                forall|j: int| 0 <= j < i ==> #[trigger] numbers(live)[j] != receiver,
            decreases self.receivers@.len() - i,
        {
            if self.receivers[i].receiver == receiver {
                proof {
                    assert(numbers(live)[i as int] == receiver);
                }
                return ;
            }
            i = i + 1;
        }
        let added = BroadReceiver { receiver, bus: bus.clone() };
        self.receivers.push(added);
        proof {
            assert(self@ =~= live.push(ReceiverView { receiver, bus: bus@ }));
            assert(numbers(self@) =~= numbers(live).push(receiver));
            assert(numbers(self@)[live.len() as int] == receiver);
        }
    }
}

/// A loan tells the same receivers of its service, and so ends the same, as if a receiver on
/// another bus did not exist.
pub proof fn receiver_on_another_bus_is_not_told(
    receivers: Seq<ReceiverView>,
    alive: Seq<bool>,
    bus: NamespaceView,
    i: int,
)
    requires
        0 <= i < receivers.len(),
        alive.len() >= receivers.len(),
        receivers[i].bus != bus,
    ensures
        listening_on(receivers.remove(i), alive.remove(i), bus) == listening_on(
            receivers,
            alive,
            bus,
        ),
    decreases receivers.len(),
{
    let last = receivers.len() - 1;
    let rest = receivers.drop_last();
    if i == last {
        assert(receivers.remove(i) =~= rest);
        lemma_only_their_lives_count(rest, alive, alive.remove(i), bus);
    } else {
        receiver_on_another_bus_is_not_told(rest, alive, bus, i);
        assert(receivers.remove(i).drop_last() =~= rest.remove(i));
        assert(receivers.remove(i).last() == receivers.last());
        assert(alive.remove(i)[last - 1] == alive[last]);
    }
}

/// Who listens on a bus depends on no more of the list of those that are alive than on the part
/// that speaks of the receivers.
proof fn lemma_only_their_lives_count(
    receivers: Seq<ReceiverView>,
    alive: Seq<bool>,
    others: Seq<bool>,
    bus: NamespaceView,
)
    requires
        receivers.len() <= alive.len(),
        receivers.len() <= others.len(),
        forall|k: int| 0 <= k < receivers.len() ==> alive[k] == others[k],
    ensures
        listening_on(receivers, alive, bus) == listening_on(receivers, others, bus),
    decreases receivers.len(),
{
    if receivers.len() > 0 {
        lemma_only_their_lives_count(receivers.drop_last(), alive, others, bus);
    }
}

/// Every receiver that is told of a service listens on the bus of the sender and is alive, and
/// every such receiver is told.
pub proof fn told_receivers_share_the_bus(
    receivers: Seq<ReceiverView>,
    alive: Seq<bool>,
    bus: NamespaceView,
    number: u64,
)
    ensures
        listening_on(receivers, alive, bus).contains(number) <==> exists|i: int|
            0 <= i < receivers.len() && (#[trigger] receivers[i]).receiver == number
                && receivers[i].bus == bus && alive[i],
    decreases receivers.len(),
{
    if receivers.len() > 0 {
        let rest = receivers.drop_last();
        let last = receivers.len() - 1;
        let before = listening_on(rest, alive, bus);
        let all = listening_on(receivers, alive, bus);
        told_receivers_share_the_bus(rest, alive, bus, number);
        if before.contains(number) {
            let i = choose|i: int|
                0 <= i < rest.len() && (#[trigger] rest[i]).receiver == number && rest[i].bus
                    == bus && alive[i];
            assert(receivers[i].receiver == number);
            let j = choose|j: int| 0 <= j < before.len() && before[j] == number;
            assert(all[j] == number);
        }
        if alive[last] && receivers[last].bus == bus {
            assert(all[before.len() as int] == receivers[last].receiver);
        }
        if all.contains(number) && !before.contains(number) {
            let j = choose|j: int| 0 <= j < all.len() && all[j] == number;
            if j < before.len() {
                assert(before[j] == number);
            }
            assert(receivers[last].receiver == number);
        }
        if exists|i: int|
            0 <= i < receivers.len() && (#[trigger] receivers[i]).receiver == number
                && receivers[i].bus == bus && alive[i] {
            let i = choose|i: int|
                0 <= i < receivers.len() && (#[trigger] receivers[i]).receiver == number
                    && receivers[i].bus == bus && alive[i];
            if i < last {
                assert(rest[i].receiver == number);
            }
        }
    }
}

/// A receiver that was asked once for a source filter, be it exact or not and for whatever sink,
/// gets a subscriber for pull receives to every service that a matching source opens later.
pub proof fn asked_source_gets_a_pull_subscriber(
    pending: Seq<UriParts>,
    source_filter: UriParts,
    pull_subscribers: Map<Seq<char>, u64>,
    listeners: RegistryView,
    service_name: Seq<char>,
    source: UriParts,
    next: SourceSubscription,
)
    requires
        pending.contains(source_filter),
        source_filter.matches(source),
        !pull_subscribers.dom().contains(service_name),
        is_next_source_subscription(
            pending,
            pull_subscribers,
            listeners,
            service_name,
            source,
            next,
        ),
    ensures
        next == SourceSubscription::Pull,
{
    let i = choose|i: int| 0 <= i < pending.len() && pending[i] == source_filter;
    assert(pending[i].matches(source));
}

/// The service that a publisher is created in spells out the source of the message: whatever
/// carries just the attributes that are asked for has that source, with an empty authority standing
/// for the host, and every filter that matches the source accepts it and no other does. An authority
/// that URIs do not keep in its given form is left out for the filters.
pub proof fn created_service_spells_out_the_source(
    publishers: Map<Seq<char>, u64>,
    service_name: Seq<char>,
    source: UriParts,
    host: Seq<char>,
    result: Result<PublisherAccess, UStatus>,
    verifier: AttributeVerifier,
    entries: Seq<(Seq<char>, Seq<char>)>,
    filter: UriParts,
)
    requires
        is_publisher_access(publishers, service_name, source, host, result),
        result == Ok::<PublisherAccess, UStatus>(PublisherAccess::Create(verifier)),
        requirements(entries) == required_attributes(verifier),
    ensures
        spelled_source(entries) == Some(normalized(source, host)),
        accepted_authority(resolved_authority(source, host)) == Some(
            resolved_authority(source, host),
        ) ==> (accepts_service(entries, filter, host) <==> normalized(filter, host).matches(
            normalized(source, host),
        )),
        !publishers.dom().contains(service_name),
{
    published_source_is_spelled_out(source, host, entries);
    filter_decides_on_published_source(source, host, entries, filter);
}

/// A publisher that is there is used, and none is created beside it. Where there is none, one is
/// created unless the authority of the source cannot be spelled out, which is the failure then.
pub proof fn publisher_is_created_only_once(
    publishers: Map<Seq<char>, u64>,
    service_name: Seq<char>,
    source: UriParts,
    host: Seq<char>,
    result: Result<PublisherAccess, UStatus>,
)
    requires
        is_publisher_access(publishers, service_name, source, host, result),
    ensures
        publishers.dom().contains(service_name) ==> result == Ok::<PublisherAccess, UStatus>(
            PublisherAccess::Existing(publishers[service_name]),
        ),
        !publishers.dom().contains(service_name) && source_fault(source, host) is None ==> result
            is Ok && result->Ok_0 is Create,
        !publishers.dom().contains(service_name) && source_fault(source, host) is Some ==> result
            is Err && result->Err_0.code == UCode::InvalidArgument && result->Err_0.message@
            == source_fault(source, host)->0,
{
}

/// No filter matches where there is none, and one more filter adds the sources that it matches.
pub proof fn filters_match_one_by_one(filters: Seq<UriParts>, filter: UriParts, source: UriParts)
    ensures
        !any_filter_matches(Seq::empty(), source),
        any_filter_matches(filters.push(filter), source) <==> any_filter_matches(filters, source)
            || filter.matches(source),
{
    let more = filters.push(filter);
    if any_filter_matches(filters, source) {
        let i = choose|i: int| 0 <= i < filters.len() && (#[trigger] filters[i]).matches(source);
        assert(more[i].matches(source));
    }
    if filter.matches(source) {
        assert(more[filters.len() as int].matches(source));
    }
    if any_filter_matches(more, source) {
        let i = choose|i: int| 0 <= i < more.len() && (#[trigger] more[i]).matches(source);
        if i < filters.len() {
            assert(filters[i].matches(source));
        }
    }
}

/// A receiver gets the subscriber for pull receives first, where a source filter that was asked for
/// matches and it has none; then the subscriber of the first registration that matches and has
/// none; and is complete only where neither is lacking.
pub proof fn lacking_subscribers_come_in_order(
    pending: Seq<UriParts>,
    pull_subscribers: Map<Seq<char>, u64>,
    listeners: RegistryView,
    service_name: Seq<char>,
    source: UriParts,
    next: SourceSubscription,
    k: int,
)
    requires
        is_next_source_subscription(
            pending,
            pull_subscribers,
            listeners,
            service_name,
            source,
            next,
        ),
        0 <= k < listeners.registrations.len(),
        listeners.registrations[k].source.matches(source),
        !listeners.registrations[k].subscribers.dom().contains(service_name),
    ensures
        next != SourceSubscription::Complete,
        next is Pull <==> any_filter_matches(pending, source) && !pull_subscribers.dom().contains(
            service_name,
        ),
        next is Listener ==> next->Listener_0 <= k
            && listeners.registrations[next->Listener_0 as int].source.matches(source)
            && !listeners.registrations[next->Listener_0 as int].subscribers.dom().contains(
            service_name,
        ),
{
    assert(listeners.registrations[k].lacks_source(service_name, source));
}

/// Where no registration lacks a subscriber, the one for pull receives is all that can be lacking.
pub proof fn served_receiver_lacks_no_listener(
    pending: Seq<UriParts>,
    pull_subscribers: Map<Seq<char>, u64>,
    listeners: RegistryView,
    service_name: Seq<char>,
    source: UriParts,
    next: SourceSubscription,
)
    requires
        is_next_source_subscription(
            pending,
            pull_subscribers,
            listeners,
            service_name,
            source,
            next,
        ),
        forall|k: int|
            0 <= k < listeners.registrations.len() ==> !(
            #[trigger] listeners.registrations[k]).source.matches(source)
                || listeners.registrations[k].subscribers.dom().contains(service_name),
    ensures
        any_filter_matches(pending, source) && !pull_subscribers.dom().contains(service_name)
            ==> next == SourceSubscription::Pull,
        !any_filter_matches(pending, source) || pull_subscribers.dom().contains(service_name)
            ==> next == SourceSubscription::Complete,
{
}

/// A failure ends the loan at every stage, and is what the loan ends with.
pub proof fn failure_ends_the_loan(
    terms: TxLoanTerms,
    state: TxLoanState,
    failure: UStatus,
    after: TxLoanState,
    action: TxLoanAction,
)
    requires
        is_tx_step(terms, state, TxLoanEvent::Failed(failure), after, action),
    ensures
        after == TxLoanState::Finished,
        action is Fail,
        action->Fail_0 == failure,
{
}

/// Once its publisher is there, receivers are told of the service. Once they were told, a sample is
/// borrowed from that publisher, as long as the metadata, the payload and the largest padding
/// between them, unless that is beyond every length.
pub proof fn sample_is_borrowed_after_receivers_were_told(
    terms: TxLoanTerms,
    publisher: u64,
    told: TxLoanState,
    telling: TxLoanAction,
    after: TxLoanState,
    action: TxLoanAction,
)
    requires
        is_tx_step(
            terms,
            TxLoanState::AwaitingPublisher,
            TxLoanEvent::Publisher(publisher),
            told,
            telling,
        ),
        is_tx_step(terms, told, TxLoanEvent::Notified, after, action),
        terms.alignment@ >= 1,
    ensures
        ({
            let len = terms.metadata_len + terms.payload_len + (terms.alignment@ - 1);
            &&& telling is Notify
            &&& len <= usize::MAX ==> {
                &&& after == (TxLoanState::AwaitingSample { publisher })
                &&& action is Lend
                &&& action->Lend_publisher == publisher
                &&& action->Lend_sample_len == len
            }
            &&& len > usize::MAX ==> {
                &&& after == TxLoanState::Finished
                &&& action is Fail
                &&& action->Fail_0.code == UCode::InvalidArgument
                &&& action->Fail_0.message@ == "sample length overflow"@
            }
        }),
{
}

/// A borrowed sample is the loan where no subscribers are asked for; else the subscribers of the
/// publisher are counted, again and again, until there are enough or the time is up.
pub proof fn subscribers_are_counted_until_there_are_enough(
    terms: TxLoanTerms,
    publisher: u64,
    lent: TxLoanState,
    first: TxLoanAction,
    count: usize,
    elapsed_nanos: u128,
    after: TxLoanState,
    action: TxLoanAction,
)
    requires
        is_tx_step(
            terms,
            TxLoanState::AwaitingSample { publisher },
            TxLoanEvent::Lent,
            lent,
            first,
        ),
        is_tx_step(
            terms,
            TxLoanState::AwaitingSubscribers { publisher },
            TxLoanEvent::Subscribers { count, elapsed_nanos },
            after,
            action,
        ),
    ensures
        terms.minimum_subscribers == 0 ==> lent == TxLoanState::Finished && first is LayOut,
        terms.minimum_subscribers > 0 ==> lent == (TxLoanState::AwaitingSubscribers { publisher })
            && first is CountSubscribers && first->CountSubscribers_publisher == publisher,
        count >= terms.minimum_subscribers ==> after == TxLoanState::Finished && action is LayOut,
        count < terms.minimum_subscribers && elapsed_nanos < terms.timeout_nanos ==> after == (
        TxLoanState::AwaitingSubscribers { publisher }) && action is CountSubscribers
            && action->CountSubscribers_publisher == publisher,
        count < terms.minimum_subscribers && elapsed_nanos >= terms.timeout_nanos ==> after
            == TxLoanState::Finished && action is Fail && action->Fail_0.code
            == UCode::DeadlineExceeded && action->Fail_0.message@
            == "publisher readiness timed out with "@ + decimal(count as nat) + " of "@ + decimal(
            terms.minimum_subscribers as nat,
        ) + " subscribers"@,
{
}

/// Where no sample is borrowed the loan ends with the reason: an internal failure is one of this
/// transport, everything else is a lack of resources.
pub proof fn loan_ends_where_nothing_is_borrowed(
    terms: TxLoanTerms,
    publisher: u64,
    error: LoanError,
    after: TxLoanState,
    action: TxLoanAction,
)
    requires
        is_tx_step(
            terms,
            TxLoanState::AwaitingSample { publisher },
            TxLoanEvent::NotLent(error),
            after,
            action,
        ),
    ensures
        after == TxLoanState::Finished,
        action is Fail,
        error == LoanError::InternalFailure ==> action->Fail_0.code == UCode::Internal,
        error != LoanError::InternalFailure ==> action->Fail_0.code == UCode::ResourceExhausted,
        terms.kind == LoanKind::Initialized ==> action->Fail_0.message@ == "failed to "@
            + "loan sample"@ + ": "@ + loan_error_text(error),
        terms.kind == LoanKind::Uninitialized ==> action->Fail_0.message@ == "failed to "@
            + "loan uninitialized sample"@ + ": "@ + loan_error_text(error),
{
}

/// An event other than the one that a loan waits for ends it as a fault of the transport.
pub proof fn unexpected_event_ends_the_loan(
    terms: TxLoanTerms,
    state: TxLoanState,
    event: TxLoanEvent,
    after: TxLoanState,
    action: TxLoanAction,
)
    requires
        is_tx_step(terms, state, event, after, action),
        !(event is Failed),
        state is AwaitingPublisher ==> !(event is Publisher),
        state is AwaitingNotification ==> !(event is Notified),
        state is AwaitingSample ==> !(event is Lent) && !(event is NotLent),
        state is AwaitingSubscribers ==> !(event is Subscribers),
    ensures
        after == TxLoanState::Finished,
        action is Fail,
        action->Fail_0.code == UCode::Internal,
        action->Fail_0.message@ == "loan step out of order"@,
{
}

/// The numbers of receivers are theirs, place by place.
pub proof fn numbers_are_those_of_the_receivers(receivers: Seq<ReceiverView>, i: int)
    requires
        0 <= i < receivers.len(),
    ensures
        numbers(receivers).len() == receivers.len(),
        numbers(receivers)[i] == receivers[i].receiver,
{
}

/// One more receiver is kept behind the others if it is alive, and is told of a service behind the
/// others if it listens on the bus besides; else it changes nothing.
pub proof fn live_receivers_are_kept_in_order(
    receivers: Seq<ReceiverView>,
    receiver: ReceiverView,
    alive: Seq<bool>,
    bus: NamespaceView,
)
    requires
        alive.len() > receivers.len(),
    ensures
        ({
            let kept = live_ones(receivers, alive);
            let more = live_ones(receivers.push(receiver), alive);
            let told = listening_on(receivers, alive, bus);
            let more_told = listening_on(receivers.push(receiver), alive, bus);
            &&& live_ones(Seq::empty(), alive).len() == 0
            &&& listening_on(Seq::empty(), alive, bus).len() == 0
            &&& alive[receivers.len() as int] ==> more == kept.push(receiver)
            &&& !alive[receivers.len() as int] ==> more == kept && more_told == told
            &&& alive[receivers.len() as int] && receiver.bus == bus ==> more_told == told.push(
                receiver.receiver,
            )
            &&& receiver.bus != bus ==> more_told == told
        }),
{
    assert(receivers.push(receiver).drop_last() =~= receivers);
}

/// Those that are kept are exactly the receivers that are alive.
pub proof fn kept_receivers_are_the_live_ones(
    receivers: Seq<ReceiverView>,
    alive: Seq<bool>,
    receiver: ReceiverView,
)
    ensures
        live_ones(receivers, alive).contains(receiver) <==> exists|i: int|
            0 <= i < receivers.len() && #[trigger] receivers[i] == receiver && alive[i],
    decreases receivers.len(),
{
    if receivers.len() > 0 {
        let rest = receivers.drop_last();
        let last = receivers.len() - 1;
        let before = live_ones(rest, alive);
        let all = live_ones(receivers, alive);
        kept_receivers_are_the_live_ones(rest, alive, receiver);
        if before.contains(receiver) {
            let i = choose|i: int| 0 <= i < rest.len() && #[trigger] rest[i] == receiver && alive[i];
            assert(receivers[i] == receiver);
            let j = choose|j: int| 0 <= j < before.len() && before[j] == receiver;
            assert(all[j] == receiver);
        }
        if alive[last] {
            assert(all[before.len() as int] == receivers[last]);
        }
        if all.contains(receiver) && !before.contains(receiver) {
            let j = choose|j: int| 0 <= j < all.len() && all[j] == receiver;
            if j < before.len() {
                assert(before[j] == receiver);
            }
            assert(receivers[last] == receiver);
        }
        if exists|i: int|
            0 <= i < receivers.len() && #[trigger] receivers[i] == receiver && alive[i] {
            let i = choose|i: int|
                0 <= i < receivers.len() && #[trigger] receivers[i] == receiver && alive[i];
            if i < last {
                assert(rest[i] == receiver);
            }
        }
    }
}

} // verus!
