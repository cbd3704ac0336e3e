//! Pull receive: one request for a sample that a source filter and a sink filter describe.
//!
//! The request walks the services that the source filter names. At each of them it takes a sample
//! that was kept for it, or asks the subscriber of the service until that has no more samples.

use crate::discovery::{
    check_discovered_names, checked_names, matching_names, matching_routes, matching_routes_on,
    names_of_routes, routes_lead_through_the_chosen_services, service_views, DiscoveredService,
};
use crate::frame::{
    lease_fault, lease_from_sample, lease_of, Iceoryx2RxLease, LeaseView, ReceivedSample,
};
use crate::named_table::NamedTable;
use crate::pull_queue::{
    is_oldest_accepted, queueing, without_lease, Iceoryx2PullMismatchQueueFullPolicy,
    PullReceiveQueueState, QueueStateView,
};
use crate::route::{name_gives_its_sink_back, route_from, route_views, RouteView, ServiceRoute};
use crate::service_attributes::{
    is_decided_as_spelled, normalized, normalized_option, normalized_optional_uri,
};
use crate::service_name_mapping::{
    compute_service_name_on, mapped_service_name, outcome, MessagingPattern,
};
use crate::status::{UCode, UStatus};
use crate::uuri::{
    borrowed_parts, borrowed_uri, cloned_uri, optional_parts, sink_accepted,
    sink_filter_accepts_itself, sink_matches, UUri, UriParts,
};
use vstd::prelude::*;
use vstd::string::*;

verus! {

/// The source filters that were asked for so far, each of them once.
pub struct PendingSourceFilters {
    filters: Vec<UUri>,
}

impl View for PendingSourceFilters {
    type V = Seq<UriParts>;

    closed spec fn view(&self) -> Seq<UriParts> {
        self.filters@.map_values(|filter: UUri| filter@)
    }
}

impl PendingSourceFilters {
    /// No filters.
    pub fn new() -> (pending: Self)
        ensures
            pending@ == Seq::<UriParts>::empty(),
    {
        let pending = PendingSourceFilters { filters: Vec::new() };
        proof {
            assert(pending@ =~= Seq::<UriParts>::empty());
        }
        pending
    }

    /// Adds a filter, if it is not there yet.
    pub fn register_pending_pull_source_filter(&mut self, source_filter: &UUri)
        ensures
            final(self)@ == if old(self)@.contains(source_filter@) {
                old(self)@
            } else {
                old(self)@.push(source_filter@)
            },
            final(self)@.contains(source_filter@),
            old(self)@.no_duplicates() ==> final(self)@.no_duplicates(),
    {
        let ghost before = self@;
        let mut i: usize = 0;
        while i < self.filters.len()
            invariant
                self@ == before,
                i <= self.filters@.len(),
                forall|j: int| 0 <= j < i ==> #[trigger] before[j] != source_filter@,
            decreases self.filters@.len() - i,
        {
            if self.filters[i] == *source_filter {
                proof {
                    assert(before[i as int] == source_filter@);
                }
                return ;
            }
            proof {
                assert(before[i as int] == self.filters@[i as int]@);
            }
            i = i + 1;
        }
        self.filters.push(source_filter.clone());
        proof {
            assert(self@ =~= before.push(source_filter@));
            assert(self@[before.len() as int] == source_filter@);
        }
    }

    /// Whether one of the filters matches a source.
    pub fn any_matches(&self, source: &UUri) -> (matched: bool)
        ensures
            matched == exists|i: int|
                0 <= i < self@.len() && (#[trigger] self@[i]).matches(source@),
    {
        let mut i: usize = 0;
        while i < self.filters.len()
            invariant
                i <= self.filters@.len(),
                forall|j: int| 0 <= j < i ==> !(#[trigger] self@[j]).matches(source@),
            decreases self.filters@.len() - i,
        {
            if self.filters[i].matches(source) {
                proof {
                    assert(self@[i as int].matches(source@));
                }
                return true;
            }
            proof {
                assert(self@[i as int] == self.filters@[i as int]@);
            }
            i = i + 1;
        }
        false
    }
}

/// A pull receive that is under way.
pub struct PullReceive {
    source_filter: UUri,
    sink_filter: Option<UUri>,
    exact: bool,
    routes: Vec<ServiceRoute>,
    next: usize,
    polling: bool,
}

/// The parts of a pull receive: its source filter, its sink filter with the authority resolved,
/// whether the source is exact, the routes of the services that it walks, the place that it has
/// reached, and whether it already looked for a kept sample there.
pub struct PullView {
    pub source: UriParts,
    pub sink: Option<UriParts>,
    pub exact: bool,
    pub routes: Seq<RouteView>,
    pub next: nat,
    pub polling: bool,
}

impl View for PullReceive {
    type V = PullView;

    closed spec fn view(&self) -> PullView {
        PullView {
            source: self.source_filter@,
            sink: optional_parts(self.sink_filter),
            exact: self.exact,
            routes: route_views(self.routes@),
            next: self.next as nat,
            polling: self.polling,
        }
    }
}

/// How a pull receive begins.
pub enum PullStart {
    /// The services are known.
    Ready(PullReceive),
    /// The services are to be discovered, now and as they appear.
    Discover,
}

/// What is to be done next for a pull receive.
pub enum PullAction {
    /// A subscriber is to be created, with the attributes of the source where that is exact.
    OpenSubscriber { service_name: String, source: Option<UUri> },
    /// The subscriber is to be asked for a sample.
    Poll(u64),
    /// The receive ends with this lease.
    Deliver(Iceoryx2RxLease),
    /// The receive ends with this failure.
    Fail(UStatus),
}

/// What became of a sample that the subscriber gave.
pub enum PullProgress {
    /// The receive ends with this lease.
    Deliver(Iceoryx2RxLease),
    /// The sample was for another sink and was kept or dropped; the receive goes on.
    Continue,
    /// The receive ends with this failure.
    Fail(UStatus),
}

/// The message where no service has a sample.
pub open spec fn no_sample() -> Seq<char> {
    "no sample available"@
}

/// A pull receive at its first service.
pub open spec fn at_first_service(
    source: UriParts,
    sink: Option<UriParts>,
    exact: bool,
    routes: Seq<RouteView>,
) -> PullView {
    PullView { source, sink, exact, routes, next: 0, polling: false }
}

/// Whether `result` is the begin of a pull receive: an exact source names one service, any other
/// source filter asks for discovery.
pub open spec fn is_pull_start(
    source: UriParts,
    sink: Option<UriParts>,
    host: Seq<char>,
    result: Result<PullStart, UStatus>,
) -> bool {
    let name = mapped_service_name(source, sink, MessagingPattern::PublishSubscribe, host);
    if source.has_wildcard() {
        result matches Ok(start) && start is Discover
    } else {
        match (result, name) {
            (Ok(PullStart::Ready(pull)), Ok(name)) => pull@ == at_first_service(
                source,
                normalized_option(sink, host),
                true,
                seq![route_from(name, source, host)],
            ),
            (Err(status), Err(failure)) => status.says(failure.0, failure.1),
            _ => false,
        }
    }
}

/// Whether the source filters that were asked for are `after`, where they were `before`, a receive
/// asked for `filter`, and it began or failed.
pub open spec fn remembers(
    before: Seq<UriParts>,
    filter: UriParts,
    began: bool,
    after: Seq<UriParts>,
) -> bool {
    after == if began && !before.contains(filter) {
        before.push(filter)
    } else {
        before
    }
}

/// Whether a pull receive goes from `before` to the next of its services.
pub open spec fn goes_on(before: PullView, after: PullView) -> bool {
    after == (PullView { next: before.next + 1, polling: false, ..before })
}

/// Whether a pull receive goes from `before` to `after` and the kept samples from `queues` to
/// `queues_after` when `action` is chosen.
pub open spec fn is_pull_action(
    before: PullView,
    queues: QueueStateView,
    subscribers: Map<Seq<char>, u64>,
    after: PullView,
    queues_after: QueueStateView,
    action: PullAction,
) -> bool {
    if before.next >= before.routes.len() {
        &&& after == before
        &&& queues_after == queues
        &&& action matches PullAction::Fail(status) && status.says(UCode::NotFound, no_sample())
    } else {
        let name = before.routes[before.next as int].name;
        let queue = queues.queue(name);
        match action {
            PullAction::Deliver(lease) => {
                &&& !before.polling
                &&& after == before
                &&& exists|i: int| #[trigger]
                    is_oldest_accepted(queue, before.sink, i) && lease@ == queue[i]
                        && queues_after == (QueueStateView {
                        queues: without_lease(queues.queues, name, i),
                        ..queues
                    })
            },
            PullAction::Poll(subscriber) => {
                &&& is_left_to_the_subscriber(before, queue, after)
                &&& queues_after == queues
                &&& subscribers.dom().contains(name)
                &&& subscriber == subscribers[name]
            },
            PullAction::OpenSubscriber { service_name, source } => {
                &&& is_left_to_the_subscriber(before, queue, after)
                &&& queues_after == queues
                &&& !subscribers.dom().contains(name)
                &&& service_name@ == name
                &&& optional_parts(source) == if before.exact {
                    Some(before.source)
                } else {
                    None
                }
            },
            PullAction::Fail(_) => false,
        }
    }
}

/// Whether a pull receive found no kept sample at its service and turns to the subscriber.
pub open spec fn is_left_to_the_subscriber(
    before: PullView,
    queue: Seq<LeaseView>,
    after: PullView,
) -> bool {
    &&& after == (PullView { polling: true, ..before })
    &&& !before.polling ==> forall|i: int|
        0 <= i < queue.len() ==> !sink_accepted((#[trigger] queue[i]).sink, before.sink)
}

/// Whether a sample that the subscriber gave is dealt with as the filters ask for: it is delivered
/// where the sink that its service leads to meets the sink filter, and kept where it does not.
pub open spec fn is_pull_progress(
    pull: PullView,
    queues: QueueStateView,
    capacity: nat,
    policy: Iceoryx2PullMismatchQueueFullPolicy,
    sample: ReceivedSample,
    queues_after: QueueStateView,
    released: Option<Iceoryx2RxLease>,
    progress: PullProgress,
) -> bool {
    let route = pull.routes[pull.next as int];
    let lease = lease_of(sample, route.source, route.sink);
    let kept = queueing(queues, capacity, policy, route.name, lease);
    match lease_fault(sample) {
        Some(message) => {
            &&& queues_after == queues
            &&& released is None
            &&& progress matches PullProgress::Fail(status) && status.says(
                UCode::InvalidArgument,
                message,
            )
        },
        None => if sink_accepted(route.sink, pull.sink) {
            &&& queues_after == queues
            &&& released is None
            &&& progress matches PullProgress::Deliver(delivered) && delivered@ == lease
        } else {
            &&& queues_after == kept.state
            &&& match released {
                Some(released) => kept.released == Some(released@),
                None => kept.released is None,
            }
            &&& match kept.refusal {
                None => progress is Continue,
                Some(message) => progress matches PullProgress::Fail(status) && status.says(
                    UCode::ResourceExhausted,
                    message,
                ),
            }
        },
    }
}

impl PullReceive {
    /// Begins a pull receive, on a host of the given name. The source filter is remembered, be it
    /// exact or not, so that services that the source opens later get a subscriber too.
    pub fn start(
        source_filter: &UUri,
        sink_filter: Option<&UUri>,
        pending: &mut PendingSourceFilters,
        host: &str,
    ) -> (result: Result<PullStart, UStatus>)
        ensures
            is_pull_start(source_filter@, borrowed_parts(sink_filter), host@, result),
            final(pending)@ == if result is Ok && !old(pending)@.contains(source_filter@) {
                old(pending)@.push(source_filter@)
            } else {
                old(pending)@
            },
            result is Ok ==> final(pending)@.contains(source_filter@),
            remembers(old(pending)@, source_filter@, result is Ok, final(pending)@),
            old(pending)@.no_duplicates() ==> final(pending)@.no_duplicates(),
    {
        if source_filter.is_exact() {
            let name: String = compute_service_name_on(
                source_filter,
                sink_filter,
                MessagingPattern::PublishSubscribe,
                host,
            )?;
            let route = ServiceRoute::new(name.as_str(), source_filter, host);
            let ghost expected = seq![route@];
            let routes: Vec<ServiceRoute> = vec![route];
            pending.register_pending_pull_source_filter(source_filter);
            let pull = PullReceive {
                source_filter: source_filter.clone(),
                sink_filter: normalized_optional_uri(sink_filter, host),
                exact: true,
                routes,
                next: 0,
                polling: false,
            };
            proof {
                assert(route_views(pull.routes@) =~= expected);
            }
            Ok(PullStart::Ready(pull))
        } else {
            pending.register_pending_pull_source_filter(source_filter);
            Ok(PullStart::Discover)
        }
    }

    /// Goes on with the services that were discovered for a source filter with wildcards.
    pub fn discovered(
        source_filter: &UUri,
        sink_filter: Option<&UUri>,
        services: &Vec<DiscoveredService>,
        host: &str,
    ) -> (result: Result<PullReceive, UStatus>)
        ensures
            match (
                result,
                checked_names(
                    matching_names(service_views(services@), source_filter@, host@),
                ),
            ) {
                (Ok(pull), Ok(_)) => pull@ == at_first_service(
                    source_filter@,
                    normalized_option(borrowed_parts(sink_filter), host@),
                    false,
                    matching_routes(service_views(services@), source_filter@, host@),
                ),
                (Err(status), Err(failure)) => status.says(failure.0, failure.1),
                _ => false,
            },
            result is Ok ==> result->Ok_0@.source == source_filter@ && !result->Ok_0@.exact
                && result->Ok_0@.next == 0 && !result->Ok_0@.polling,
            result is Ok && sink_filter is None ==> result->Ok_0@.sink is None,
            result is Ok && sink_filter is Some ==> result->Ok_0@.sink == Some(
                normalized(sink_filter->0@, host@),
            ),
            forall|i: int|
                0 <= i < services@.len() ==> is_decided_as_spelled(
                    (#[trigger] services@[i])@.attributes,
                    source_filter@,
                    host@,
                ),
    {
        let routes: Vec<ServiceRoute> = matching_routes_on(services, source_filter, host);
        proof {
            routes_lead_through_the_chosen_services(
                service_views(services@),
                source_filter@,
                host@,
            );
        }
        check_discovered_names(&names_of_routes(&routes))?;
        Ok(
            PullReceive {
                source_filter: source_filter.clone(),
                sink_filter: normalized_optional_uri(sink_filter, host),
                exact: false,
                routes,
                next: 0,
                polling: false,
            },
        )
    }

    /// What is to be done next.
    pub fn next_action(
        &mut self,
        queues: &mut PullReceiveQueueState,
        subscribers: &NamedTable<u64>,
    ) -> (action: PullAction)
        requires
            old(queues).wf(),
            subscribers.wf(),
        ensures
            final(queues).wf(),
            is_pull_action(
                old(self)@,
                old(queues)@,
                subscribers@,
                final(self)@,
                final(queues)@,
                action,
            ),
    {
        if self.next >= self.routes.len() {
            return PullAction::Fail(
                UStatus::fail_with_code(UCode::NotFound, "no sample available"),
            );
        }
        let service_name: &str = self.routes[self.next].name();
        proof {
            assert(self@.routes[self@.next as int] == self.routes@[self.next as int]@);
        }
        if !self.polling {
            match queues.pop_queued_pull_sample(service_name, borrowed_uri(&self.sink_filter)) {
                Some(lease) => {
                    return PullAction::Deliver(lease);
                },
                None => {},
            }
        }
        let action: PullAction = match subscribers.get(service_name) {
            Some(subscriber) => PullAction::Poll(*subscriber),
            None => PullAction::OpenSubscriber {
                service_name: service_name.to_owned(),
                source: if self.exact {
                    Some(self.source_filter.clone())
                } else {
                    None
                },
            },
        };
        self.polling = true;
        action
    }

    /// Goes on with a sample that the subscriber gave. A lease that is in no queue afterwards and
    /// is not delivered is handed back.
    pub fn on_sample(
        &self,
        queues: &mut PullReceiveQueueState,
        capacity: usize,
        policy: Iceoryx2PullMismatchQueueFullPolicy,
        sample: ReceivedSample,
    ) -> (result: (Option<Iceoryx2RxLease>, PullProgress))
        requires
            old(queues).wf(),
            self@.next < self@.routes.len(),
        ensures
            final(queues).wf(),
            is_pull_progress(
                self@,
                old(queues)@,
                capacity as nat,
                policy,
                sample,
                final(queues)@,
                result.0,
                result.1,
            ),
    {
        let route: &ServiceRoute = &self.routes[self.next];
        proof {
            assert(self@.routes[self@.next as int] == route@);
        }
        let lease = match lease_from_sample(
            sample,
            route.source().clone(),
            cloned_uri(route.sink()),
        ) {
            Ok(lease) => lease,
            Err(status) => {
                return (None, PullProgress::Fail(status));
            },
        };
        if sink_matches(lease.sink_filter_hint(), borrowed_uri(&self.sink_filter)) {
            return (None, PullProgress::Deliver(lease));
        }
        let (released, kept) = queues.queue_pull_sample(capacity, policy, route.name(), lease);
        match kept {
            Ok(()) => (released, PullProgress::Continue),
            Err(status) => (released, PullProgress::Fail(status)),
        }
    }

    /// Goes on where the subscriber has no more samples: to the next service.
    pub fn on_empty(&mut self)
        requires
            old(self)@.next < old(self)@.routes.len(),
        ensures
            final(self)@ == (PullView {
                next: old(self)@.next + 1,
                polling: false,
                ..old(self)@
            }),
            goes_on(old(self)@, final(self)@),
    {
        proof {
            assert(self.next < self.routes.len());
        }
        self.next = self.next + 1;
        self.polling = false;
    }
}

/// What is delivered meets the filter: the sink that the service of the sample leads to is one
/// that the sink filter accepts.
pub proof fn delivered_sample_meets_sink_filter(
    pull: PullView,
    queues: QueueStateView,
    capacity: nat,
    policy: Iceoryx2PullMismatchQueueFullPolicy,
    sample: ReceivedSample,
    queues_after: QueueStateView,
    released: Option<Iceoryx2RxLease>,
    progress: PullProgress,
)
    requires
        is_pull_progress(
            pull,
            queues,
            capacity,
            policy,
            sample,
            queues_after,
            released,
            progress,
        ),
    ensures
        progress is Deliver ==> sink_accepted(pull.routes[pull.next as int].sink, pull.sink)
            && progress->Deliver_0@.sink == pull.routes[pull.next as int].sink && queues_after
            == queues,
        lease_fault(sample) is None && sink_accepted(
            pull.routes[pull.next as int].sink,
            pull.sink,
        ) ==> progress is Deliver,
{
}

/// A sample for another sink is kept for a later receive: it stands last in the queue of its
/// service, with its own sink, and a receive at that service whose sink filter accepts that sink
/// is given a kept sample.
pub proof fn mismatched_sample_is_kept_for_a_later_receive(
    pull: PullView,
    queues: QueueStateView,
    capacity: nat,
    policy: Iceoryx2PullMismatchQueueFullPolicy,
    sample: ReceivedSample,
    queues_after: QueueStateView,
    released: Option<Iceoryx2RxLease>,
    progress: PullProgress,
    later: PullView,
    subscribers: Map<Seq<char>, u64>,
    later_after: PullView,
    queues_later: QueueStateView,
    action: PullAction,
)
    requires
        is_pull_progress(
            pull,
            queues,
            capacity,
            policy,
            sample,
            queues_after,
            released,
            progress,
        ),
        lease_fault(sample) is None,
        !sink_accepted(pull.routes[pull.next as int].sink, pull.sink),
        capacity > 0,
        policy == Iceoryx2PullMismatchQueueFullPolicy::DropOldestAndReport || queues.queue(
            pull.routes[pull.next as int].name,
        ).len() < capacity,
        later.next < later.routes.len(),
        later.routes[later.next as int].name == pull.routes[pull.next as int].name,
        !later.polling,
        sink_accepted(pull.routes[pull.next as int].sink, later.sink),
        is_pull_action(later, queues_after, subscribers, later_after, queues_later, action),
    ensures
        progress is Continue,
        ({
            let route = pull.routes[pull.next as int];
            let queue = queues_after.queue(route.name);
            &&& queue.len() > 0
            &&& queue.last() == lease_of(sample, route.source, route.sink)
            &&& action is Deliver
            &&& sink_accepted(action->Deliver_0@.sink, later.sink)
            &&& (forall|i: int|
                0 <= i < queue.len() - 1 ==> !sink_accepted(
                    (#[trigger] queue[i]).sink,
                    later.sink,
                )) ==> action->Deliver_0@ == lease_of(sample, route.source, route.sink)
        }),
{
    let route = pull.routes[pull.next as int];
    let queue = queues_after.queue(route.name);
    let last = queue.len() - 1;
    assert(queue[last] == lease_of(sample, route.source, route.sink));
}

/// What a receive takes from the kept samples meets its sink filter.
pub proof fn kept_sample_meets_sink_filter(
    before: PullView,
    queues: QueueStateView,
    subscribers: Map<Seq<char>, u64>,
    after: PullView,
    queues_after: QueueStateView,
    action: PullAction,
)
    requires
        is_pull_action(before, queues, subscribers, after, queues_after, action),
        action is Deliver,
    ensures
        sink_accepted(action->Deliver_0@.sink, before.sink),
{
}

/// A receive that has walked all its services ends with the report that there is no sample, and
/// with nothing else; it takes no kept sample with it.
pub proof fn walked_receive_reports_no_sample(
    before: PullView,
    queues: QueueStateView,
    subscribers: Map<Seq<char>, u64>,
    after: PullView,
    queues_after: QueueStateView,
    action: PullAction,
)
    requires
        is_pull_action(before, queues, subscribers, after, queues_after, action),
    ensures
        action is Fail <==> before.next >= before.routes.len(),
        action is Fail ==> action->Fail_0.says(UCode::NotFound, no_sample()),
        action is Fail ==> queues_after == queues && after == before,
{
}

/// A receive with an exact source asks the very service that a message from that source to that
/// sink is sent to, and what comes through that service meets its sink filter.
pub proof fn receiver_asks_where_the_sender_publishes(
    source: UriParts,
    sink: Option<UriParts>,
    host: Seq<char>,
    pull: PullReceive,
    published: Result<String, UStatus>,
)
    requires
        !source.has_wildcard(),
        is_pull_start(source, sink, host, Ok(PullStart::Ready(pull))),
        outcome(
            published,
            mapped_service_name(source, sink, MessagingPattern::PublishSubscribe, host),
        ),
    ensures
        published is Ok,
        pull@.routes.len() == 1,
        pull@.routes[0].name == published->Ok_0@,
        pull@.routes[0].sink == pull@.sink,
        sink_accepted(pull@.routes[0].sink, pull@.sink),
{
    name_gives_its_sink_back(source, sink, host, published->Ok_0@);
    sink_filter_accepts_itself(pull@.sink);
}

/// A receive with a wildcard in its source filter asks for discovery. One with an exact source
/// begins at the one service that carries what the source sends to the sink, and holds samples
/// against the sink filter with its authority resolved; where there is no such service it fails as
/// the mapping to service names does.
pub proof fn receive_begins_at_the_service_of_its_source(
    source: UriParts,
    sink: Option<UriParts>,
    host: Seq<char>,
    result: Result<PullStart, UStatus>,
)
    requires
        is_pull_start(source, sink, host, result),
    ensures
        ({
            let name = mapped_service_name(source, sink, MessagingPattern::PublishSubscribe, host);
            &&& source.has_wildcard() ==> result is Ok && result->Ok_0 is Discover
            &&& !source.has_wildcard() ==> (result is Ok <==> name is Ok)
            &&& !source.has_wildcard() && result is Err ==> result->Err_0.code == name->Err_0.0
                && result->Err_0.message@ == name->Err_0.1
            &&& !source.has_wildcard() && result is Ok ==> {
                let pull = result->Ok_0->Ready_0@;
                &&& result->Ok_0 is Ready
                &&& pull.source == source
                &&& pull.sink is Some <==> sink is Some
                &&& sink is Some ==> pull.sink == Some(normalized(sink->0, host))
                &&& pull.exact
                &&& pull.routes.len() == 1
                &&& pull.routes[0].name == name->Ok_0
                &&& pull.routes[0].source == normalized(source, host)
                &&& pull.next == 0
                &&& !pull.polling
            }
        }),
{
}

/// A receive begins at its first service, has not looked for kept samples, and has the filters and
/// the routes that it was given.
pub proof fn receive_begins_with_its_filters(
    source: UriParts,
    sink: Option<UriParts>,
    exact: bool,
    routes: Seq<RouteView>,
)
    ensures
        at_first_service(source, sink, exact, routes).source == source,
        at_first_service(source, sink, exact, routes).sink == sink,
        at_first_service(source, sink, exact, routes).exact == exact,
        at_first_service(source, sink, exact, routes).routes == routes,
        at_first_service(source, sink, exact, routes).next == 0,
        !at_first_service(source, sink, exact, routes).polling,
        no_sample() == "no sample available"@,
{
}

/// A receive that begins has its source filter remembered, behind those that were asked for before
/// and once; one that fails has nothing remembered.
pub proof fn asked_filters_are_remembered_in_order(
    before: Seq<UriParts>,
    filter: UriParts,
    began: bool,
    after: Seq<UriParts>,
    i: int,
)
    requires
        remembers(before, filter, began, after),
        0 <= i < before.len(),
    ensures
        after[i] == before[i],
        began ==> after.contains(filter),
        !began ==> after == before,
        before.contains(filter) ==> after == before,
        after.len() <= before.len() + 1,
        after.len() > before.len() ==> after.last() == filter,
{
    if began && !before.contains(filter) {
        assert(after[before.len() as int] == filter);
    }
}

/// A receive goes on to the next service, where it looks for kept samples anew; its filters and its
/// services stay.
pub proof fn receive_goes_on_to_the_next_service(before: PullView, after: PullView)
    requires
        goes_on(before, after),
    ensures
        after.next == before.next + 1,
        !after.polling,
        after.routes == before.routes,
        after.source == before.source,
        after.sink == before.sink,
        after.exact == before.exact,
{
}

/// A receive that comes to a service with kept samples for its sink ends with the oldest of these.
/// The other kept samples stay, in their order, and so do the counts.
pub proof fn oldest_kept_sample_is_delivered(
    before: PullView,
    queues: QueueStateView,
    subscribers: Map<Seq<char>, u64>,
    after: PullView,
    queues_after: QueueStateView,
    action: PullAction,
    i: int,
    other: Seq<char>,
)
    requires
        is_pull_action(before, queues, subscribers, after, queues_after, action),
        before.next < before.routes.len(),
        !before.polling,
        0 <= i < queues.queue(before.routes[before.next as int].name).len(),
        sink_accepted(
            queues.queue(before.routes[before.next as int].name)[i].sink,
            before.sink,
        ),
        forall|j: int|
            0 <= j < i ==> !sink_accepted(
                (#[trigger] queues.queue(before.routes[before.next as int].name)[j]).sink,
                before.sink,
            ),
    ensures
        ({
            let name = before.routes[before.next as int].name;
            &&& action is Deliver
            &&& action->Deliver_0@ == queues.queue(name)[i]
            &&& queues_after.queue(name) == queues.queue(name).remove(i)
            &&& other != name ==> queues_after.queue(other) == queues.queue(other)
            &&& queues_after.dropped == queues.dropped
            &&& queues_after.rejected == queues.rejected
            &&& queues_after.reason == queues.reason
            &&& after == before
        }),
{
    let name = before.routes[before.next as int].name;
    let queue = queues.queue(name);
    assert(sink_accepted(queue[i].sink, before.sink));
    if action is Deliver {
        let k = choose|k: int| #[trigger]
            is_oldest_accepted(queue, before.sink, k) && action->Deliver_0@ == queue[k]
                && queues_after == (QueueStateView {
                queues: without_lease(queues.queues, name, k),
                ..queues
            });
        assert(k == i);
        assert(queues_after.queue(name) =~= queue.remove(i));
    }
}

/// A receive that finds no kept sample for its sink at a service, or has looked for one already,
/// turns to the subscriber of that service: it asks it, where there is one, and else has it created,
/// with the attributes of the source where that is exact. The kept samples stay as they are.
pub proof fn receive_without_kept_sample_turns_to_the_subscriber(
    before: PullView,
    queues: QueueStateView,
    subscribers: Map<Seq<char>, u64>,
    after: PullView,
    queues_after: QueueStateView,
    action: PullAction,
)
    requires
        is_pull_action(before, queues, subscribers, after, queues_after, action),
        before.next < before.routes.len(),
        before.polling || forall|i: int|
            0 <= i < queues.queue(before.routes[before.next as int].name).len() ==> !sink_accepted(
                (#[trigger] queues.queue(before.routes[before.next as int].name)[i]).sink,
                before.sink,
            ),
    ensures
        ({
            let name = before.routes[before.next as int].name;
            &&& queues_after == queues
            &&& subscribers.dom().contains(name) ==> action is Poll && action->Poll_0
                == subscribers[name]
            &&& !subscribers.dom().contains(name) ==> {
                &&& action is OpenSubscriber
                &&& action->service_name@ == name
                &&& before.exact ==> optional_parts(action->source) == Some(before.source)
                &&& !before.exact ==> action->source is None
            }
            &&& after.polling
            &&& after.next == before.next
            &&& after.routes == before.routes
            &&& after.source == before.source
            &&& after.sink == before.sink
            &&& after.exact == before.exact
        }),
{
}

/// A sample without an acceptable frame ends the receive with the complaint about the frame, and
/// leaves the kept samples as they are.
pub proof fn malformed_sample_fails_the_receive(
    pull: PullView,
    queues: QueueStateView,
    capacity: nat,
    policy: Iceoryx2PullMismatchQueueFullPolicy,
    sample: ReceivedSample,
    queues_after: QueueStateView,
    released: Option<Iceoryx2RxLease>,
    progress: PullProgress,
)
    requires
        is_pull_progress(
            pull,
            queues,
            capacity,
            policy,
            sample,
            queues_after,
            released,
            progress,
        ),
        lease_fault(sample) is Some,
    ensures
        progress is Fail,
        progress->Fail_0.code == UCode::InvalidArgument,
        progress->Fail_0.message@ == lease_fault(sample)->0,
        released is None,
        queues_after == queues,
{
}

/// A sample that is delivered is the one that the subscriber gave, with the source and the sink of
/// its service; one for another sink is queued at its service, with the same source and sink, and
/// the receive goes on unless the queue refuses it.
pub proof fn sample_is_delivered_or_queued(
    pull: PullView,
    queues: QueueStateView,
    capacity: nat,
    policy: Iceoryx2PullMismatchQueueFullPolicy,
    sample: ReceivedSample,
    queues_after: QueueStateView,
    released: Option<Iceoryx2RxLease>,
    progress: PullProgress,
)
    requires
        is_pull_progress(
            pull,
            queues,
            capacity,
            policy,
            sample,
            queues_after,
            released,
            progress,
        ),
        lease_fault(sample) is None,
    ensures
        ({
            let route = pull.routes[pull.next as int];
            let lease = lease_of(sample, route.source, route.sink);
            let kept = queueing(queues, capacity, policy, route.name, lease);
            &&& sink_accepted(route.sink, pull.sink) ==> progress is Deliver
                && progress->Deliver_0@ == lease && queues_after == queues && released is None
            &&& !sink_accepted(route.sink, pull.sink) ==> {
                &&& queues_after == kept.state
                &&& released is Some <==> kept.released is Some
                &&& released is Some ==> Some(released->0@) == kept.released
                &&& kept.refusal is None <==> progress is Continue
                &&& kept.refusal is Some ==> progress is Fail && progress->Fail_0.code
                    == UCode::ResourceExhausted && Some(progress->Fail_0.message@) == kept.refusal
            }
        }),
{
}

} // verus!
