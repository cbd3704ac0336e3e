//! Registered listeners, the subscribers that serve them, and the relay of samples to them.
//!
//! Listeners, subscribers and samples are known here by numbers that their owner gives them.

use crate::discovery::{route_of, DiscoveredService, ServiceView};
use crate::frame::{
    lease_fault, lease_from_sample, lease_of, Iceoryx2RxLease, LeaseView, ReceivedSample,
};
use crate::named_table::NamedTable;
use crate::route::{name_gives_its_sink_back, route_from, RouteView, ServiceRoute};
use crate::service_attributes::{
    accepts_service, attributes_match_source_filter_on, filter_decides_on_published_source,
    normalized, normalized_option, normalized_optional_uri, normalized_uri, provenance,
    requirements, source_pairs, spelled_source, spells_plainly,
};
use crate::service_name_mapping::{
    compute_service_name_on, mapped_service_name, resolved_authority, MessagingPattern,
};
use crate::status::{fails_with, UCode, UStatus};
use crate::uuri::{
    accepted_authority, borrowed_parts, borrowed_uri, cloned_uri, optional_parts,
    pattern_matches_itself, same_optional_uri, sink_accepted, sink_filter_accepts_itself,
    sink_matches, UUri, UriParts,
};
use vstd::prelude::*;
use vstd::string::*;

verus! {

/// A subscriber, and the route of the service that it subscribes to.
#[derive(Debug)]
pub struct Subscription {
    subscriber: u64,
    route: ServiceRoute,
}

/// The parts of a subscription.
pub struct SubscriptionView {
    pub subscriber: u64,
    pub route: RouteView,
}

impl View for Subscription {
    type V = SubscriptionView;

    closed spec fn view(&self) -> SubscriptionView {
        SubscriptionView { subscriber: self.subscriber, route: self.route@ }
    }
}

impl Subscription {
    /// The subscription of a subscriber to the service of a route.
    pub fn new(subscriber: u64, route: ServiceRoute) -> (subscription: Self)
        ensures
            subscription@ == (SubscriptionView { subscriber, route: route@ }),
    {
        Subscription { subscriber, route }
    }

    /// The subscriber.
    pub fn subscriber(&self) -> (subscriber: u64)
        ensures
            subscriber == self@.subscriber,
    {
        self.subscriber
    }

    /// The route of the service.
    pub fn route(&self) -> (route: &ServiceRoute)
        ensures
            route@ == self@.route,
    {
        &self.route
    }
}

/// The views of the subscriptions in a table.
pub open spec fn subscription_views(subscriptions: Map<Seq<char>, Subscription>) -> Map<
    Seq<char>,
    SubscriptionView,
> {
    subscriptions.map_values(|subscription: Subscription| subscription@)
}

/// The table that holds one subscription, or none.
pub open spec fn first_subscription(subscription: Option<Subscription>) -> Map<
    Seq<char>,
    SubscriptionView,
> {
    match subscription {
        Some(subscription) => Map::empty().insert(subscription@.route.name, subscription@),
        None => Map::empty(),
    }
}

/// A listener that is registered for a source and a sink filter.
pub struct ZeroCopyListenerRegistration {
    id: u64,
    source_filter: UUri,
    sink_filter: Option<UUri>,
    listener: u64,
    subscribers: NamedTable<Subscription>,
}

/// The registered listeners, in the order in which they were registered.
pub struct ListenerRegistry {
    registrations: Vec<ZeroCopyListenerRegistration>,
    next_id: u64,
}

/// The parts of a registration.
pub struct RegistrationView {
    pub id: u64,
    pub source: UriParts,
    pub sink: Option<UriParts>,
    pub listener: u64,
    pub subscribers: Map<Seq<char>, SubscriptionView>,
}

/// The registrations, and the number that the next one gets.
#[verifier::ext_equal]
pub struct RegistryView {
    pub registrations: Seq<RegistrationView>,
    pub next_id: u64,
}

/// What registering a listener takes.
#[derive(Debug)]
pub enum RegistrationPlan {
    /// A subscriber to the one service that the filters name.
    Exact { route: ServiceRoute },
    /// The discovery of services as they appear.
    Broad,
}

/// A sample that was received for a registration and is to be delivered to its listener.
pub struct PendingDelivery {
    registration: u64,
    listener: u64,
    lease: Iceoryx2RxLease,
}

/// The parts of a pending delivery.
pub struct DeliveryView {
    pub registration: u64,
    pub listener: u64,
    pub lease: LeaseView,
}

impl View for ZeroCopyListenerRegistration {
    type V = RegistrationView;

    closed spec fn view(&self) -> RegistrationView {
        RegistrationView {
            id: self.id,
            source: self.source_filter@,
            sink: optional_parts(self.sink_filter),
            listener: self.listener,
            subscribers: subscription_views(self.subscribers@),
        }
    }
}

impl View for ListenerRegistry {
    type V = RegistryView;

    closed spec fn view(&self) -> RegistryView {
        RegistryView {
            registrations: self.registrations@.map_values(
                |registration: ZeroCopyListenerRegistration| registration@,
            ),
            next_id: self.next_id,
        }
    }
}

impl View for PendingDelivery {
    type V = DeliveryView;

    closed spec fn view(&self) -> DeliveryView {
        DeliveryView {
            registration: self.registration,
            listener: self.listener,
            lease: self.lease@,
        }
    }
}

impl RegistrationView {
    /// Whether the registration is that of the given listener for the given filters.
    pub open spec fn has_identity(
        self,
        source: UriParts,
        sink: Option<UriParts>,
        listener: u64,
    ) -> bool {
        self.source == source && self.sink == sink && self.listener == listener
    }

    /// Whether the registration lacks a subscriber to a listed service that its filter matches.
    pub open spec fn lacks(self, service: ServiceView, host: Seq<char>) -> bool {
        !self.subscribers.dom().contains(service.name) && accepts_service(
            service.attributes,
            self.source,
            host,
        )
    }

    /// Whether the registration has a subscriber to a listed service if its filter matches what the
    /// service spells out with a plain authority.
    pub open spec fn serves_as_spelled(self, service: ServiceView, host: Seq<char>) -> bool {
        spells_plainly(service.attributes) && normalized(self.source, host).matches(
            spelled_source(service.attributes)->0,
        ) ==> self.subscribers.dom().contains(service.name)
    }

    /// Whether the registration lacks a subscriber to the service of a source that its filter
    /// matches.
    pub open spec fn lacks_source(self, service_name: Seq<char>, source: UriParts) -> bool {
        self.source.matches(source) && !self.subscribers.dom().contains(service_name)
    }
}

impl RegistryView {
    /// Each number and each identity occurs once, and the next number is a new one.
    pub open spec fn consistent(self) -> bool {
        &&& forall|i: int|
            0 <= i < self.registrations.len() ==> (#[trigger] self.registrations[i]).id
                < self.next_id
        &&& forall|i: int, j: int|
            #![trigger self.registrations[i], self.registrations[j]]
            0 <= i < j < self.registrations.len() ==> self.registrations[i].id
                != self.registrations[j].id && !self.registrations[i].has_identity(
                self.registrations[j].source,
                self.registrations[j].sink,
                self.registrations[j].listener,
            )
    }

    /// Whether the listener is registered for the filters.
    pub open spec fn has(self, source: UriParts, sink: Option<UriParts>, listener: u64) -> bool {
        exists|i: int|
            0 <= i < self.registrations.len() && (#[trigger] self.registrations[i]).has_identity(
                source,
                sink,
                listener,
            )
    }

    /// Whether a registration has the given number.
    pub open spec fn has_id(self, id: u64) -> bool {
        exists|i: int| 0 <= i < self.registrations.len() && (#[trigger] self.registrations[i]).id == id
    }

    /// The place of the registration of a listener for the filters.
    pub open spec fn place(self, source: UriParts, sink: Option<UriParts>, listener: u64) -> int {
        choose|i: int|
            0 <= i < self.registrations.len() && (#[trigger] self.registrations[i]).has_identity(
                source,
                sink,
                listener,
            )
    }

    /// The registry with one more registration.
    pub open spec fn with_registration(
        self,
        source: UriParts,
        sink: Option<UriParts>,
        listener: u64,
        subscribers: Map<Seq<char>, SubscriptionView>,
    ) -> RegistryView {
        RegistryView {
            registrations: self.registrations.push(
                RegistrationView { id: self.next_id, source, sink, listener, subscribers },
            ),
            next_id: (self.next_id + 1) as u64,
        }
    }

    /// The registry without the registration of a listener for the filters.
    pub open spec fn without_registration(
        self,
        source: UriParts,
        sink: Option<UriParts>,
        listener: u64,
    ) -> RegistryView {
        RegistryView {
            registrations: self.registrations.remove(self.place(source, sink, listener)),
            ..self
        }
    }

    /// The registry with one more subscriber of a registration.
    pub open spec fn with_subscriber(
        self,
        i: int,
        subscription: SubscriptionView,
    ) -> RegistryView {
        let registration = self.registrations[i];
        RegistryView {
            registrations: self.registrations.update(
                i,
                RegistrationView {
                    subscribers: registration.subscribers.insert(
                        subscription.route.name,
                        subscription,
                    ),
                    ..registration
                },
            ),
            ..self
        }
    }
}

/// The message of the refusal of a second registration.
pub open spec fn already_registered() -> Seq<char> {
    "zero-copy listener already registered for filter"@
}

/// The message where there is no such registration.
pub open spec fn not_registered() -> Seq<char> {
    "zero-copy listener not registered for filter"@
}

impl ZeroCopyListenerRegistration {
    /// The subscribers are a table.
    pub closed spec fn wf(self) -> bool {
        self.subscribers.wf()
    }

    /// Whether the registration is that of the given listener for the given filters.
    fn has_same_identity(
        &self,
        source_filter: &UUri,
        sink_filter: Option<&UUri>,
        listener: u64,
    ) -> (same: bool)
        ensures
            same == self@.has_identity(source_filter@, borrowed_parts(sink_filter), listener),
    {
        self.source_filter == *source_filter && same_optional_uri(
            borrowed_uri(&self.sink_filter),
            sink_filter,
        ) && self.listener == listener
    }
}

impl ListenerRegistry {
    /// The registrations are consistent, and the subscribers of each are a table.
    pub closed spec fn wf(self) -> bool {
        &&& self@.consistent()
        &&& forall|i: int|
            0 <= i < self.registrations@.len() ==> (#[trigger] self.registrations@[i]).wf()
    }

    /// A well-formed registry is consistent.
    pub proof fn well_formed_registry_is_consistent(self)
        requires
            self.wf(),
        ensures
            self@.consistent(),
    {
    }

    /// No registrations.
    pub fn new() -> (registry: Self)
        ensures
            registry.wf(),
            registry@ == (RegistryView { registrations: Seq::empty(), next_id: 0 }),
    {
        let registry = ListenerRegistry { registrations: Vec::new(), next_id: 0 };
        proof {
            assert(registry@.registrations =~= Seq::empty());
        }
        registry
    }

    /// The number of registrations.
    pub fn len(&self) -> (len: usize)
        ensures
            len == self@.registrations.len(),
    {
        self.registrations.len()
    }

    /// The subscribers that serve a registration.
    pub(crate) fn subscribers_of(&self, i: usize) -> (subscribers: &NamedTable<
        Subscription,
    >)
        requires
            self.wf(),
            i < self@.registrations.len(),
        ensures
            subscribers.wf(),
            subscription_views(subscribers@) == self@.registrations[i as int].subscribers,
    {
        proof {
            assert(self.registrations@[i as int].wf());
        }
        &self.registrations[i].subscribers
    }

    /// The place of the registration of a listener for the filters.
    fn position(
        &self,
        source_filter: &UUri,
        sink_filter: Option<&UUri>,
        listener: u64,
    ) -> (position: Option<usize>)
        requires
            self.wf(),
        ensures
            match position {
                Some(i) => i < self@.registrations.len() && i == self@.place(
                    source_filter@,
                    borrowed_parts(sink_filter),
                    listener,
                ) && self@.has(source_filter@, borrowed_parts(sink_filter), listener),
                None => !self@.has(source_filter@, borrowed_parts(sink_filter), listener),
            },
    {
        let ghost sink = borrowed_parts(sink_filter);
        let mut i: usize = 0;
        while i < self.registrations.len()
            invariant
                self.wf(),
                i <= self.registrations@.len(),
                sink == borrowed_parts(sink_filter),
                forall|j: int|
                    0 <= j < i ==> !(#[trigger] self@.registrations[j]).has_identity(
                        source_filter@,
                        sink,
                        listener,
                    ),
            decreases self.registrations@.len() - i,
        {
            if self.registrations[i].has_same_identity(source_filter, sink_filter, listener) {
                proof {
                    assert(self@.registrations[i as int].has_identity(
                        source_filter@,
                        sink,
                        listener,
                    ));
                    let place = self@.place(source_filter@, sink, listener);
                    assert(self@.registrations[place].has_identity(
                        source_filter@,
                        sink,
                        listener,
                    ));
                }
                return Some(i);
            }
            proof {
                assert(self@.registrations[i as int] == self.registrations@[i as int]@);
            }
            i = i + 1;
        }
        None
    }

    /// What registering a listener takes, on a host of the given name: nothing where it is
    /// registered already.
    pub fn plan_registration(
        &self,
        source_filter: &UUri,
        sink_filter: Option<&UUri>,
        listener: u64,
        host: &str,
    ) -> (result: Result<RegistrationPlan, UStatus>)
        requires
            self.wf(),
        ensures
            ({
                let sink = borrowed_parts(sink_filter);
                let name = mapped_service_name(
                    source_filter@,
                    sink,
                    MessagingPattern::PublishSubscribe,
                    host@,
                );
                if self@.has(source_filter@, sink, listener) {
                    fails_with(result, UCode::AlreadyExists, already_registered())
                } else if source_filter@.has_wildcard() {
                    result == Ok::<RegistrationPlan, UStatus>(RegistrationPlan::Broad)
                } else {
                    match (result, name) {
                        (Ok(RegistrationPlan::Exact { route }), Ok(name)) => route@ == route_from(
                            name,
                            source_filter@,
                            host@,
                        ),
                        (Err(status), Err(failure)) => status.says(failure.0, failure.1),
                        _ => false,
                    }
                }
            }),
            result is Ok && result->Ok_0 is Broad <==> source_filter@.has_wildcard() && forall|i: int|
                #![trigger self@.registrations[i]]
                0 <= i < self@.registrations.len() ==> self@.registrations[i].source
                    != source_filter@ || self@.registrations[i].sink != borrowed_parts(sink_filter)
                    || self@.registrations[i].listener != listener,
            result is Ok && result->Ok_0 is Exact ==> result->Ok_0->route@.source == normalized(
                source_filter@,
                host@,
            ),
    {
        if self.position(source_filter, sink_filter, listener).is_some() {
            return Err(
                UStatus::fail_with_code(
                    UCode::AlreadyExists,
                    "zero-copy listener already registered for filter",
                ),
            );
        }
        if source_filter.is_exact() {
            let service_name: String = compute_service_name_on(
                source_filter,
                sink_filter,
                MessagingPattern::PublishSubscribe,
                host,
            )?;
            let route = ServiceRoute::new(service_name.as_str(), source_filter, host);
            Ok(RegistrationPlan::Exact { route })
        } else {
            Ok(RegistrationPlan::Broad)
        }
    }

    /// Registers a listener, with the subscription that serves it from the start, if there is one.
    pub fn register(
        &mut self,
        source_filter: &UUri,
        sink_filter: Option<&UUri>,
        listener: u64,
        subscription: Option<Subscription>,
    ) -> (result: Result<u64, UStatus>)
        requires
            old(self).wf(),
        ensures
            final(self).wf(),
            ({
                let sink = borrowed_parts(sink_filter);
                if old(self)@.has(source_filter@, sink, listener) {
                    final(self)@ == old(self)@ && fails_with(
                        result,
                        UCode::AlreadyExists,
                        already_registered(),
                    )
                } else if old(self)@.next_id == u64::MAX {
                    final(self)@ == old(self)@ && fails_with(
                        result,
                        UCode::ResourceExhausted,
                        "no registration numbers are left"@,
                    )
                } else {
                    result == Ok::<u64, UStatus>(old(self)@.next_id) && final(self)@ == old(
                        self,
                    )@.with_registration(
                        source_filter@,
                        sink,
                        listener,
                        first_subscription(subscription),
                    )
                }
            }),
            result is Ok <==> old(self)@.next_id < u64::MAX && forall|i: int|
                #![trigger old(self)@.registrations[i]]
                0 <= i < old(self)@.registrations.len() ==> old(self)@.registrations[i].source
                    != source_filter@ || old(self)@.registrations[i].sink != borrowed_parts(
                    sink_filter,
                ) || old(self)@.registrations[i].listener != listener,
    {
        let ghost before = *self;
        if self.position(source_filter, sink_filter, listener).is_some() {
            return Err(
                UStatus::fail_with_code(
                    UCode::AlreadyExists,
                    "zero-copy listener already registered for filter",
                ),
            );
        }
        if self.next_id == u64::MAX {
            return Err(
                UStatus::fail_with_code(
                    UCode::ResourceExhausted,
                    "no registration numbers are left",
                ),
            );
        }
        let id: u64 = self.next_id;
        let mut subscribers: NamedTable<Subscription> = NamedTable::new();
        match subscription {
            Some(subscription) => {
                let service_name: String = subscription.route.name().to_owned();
                subscribers.insert(service_name.as_str(), subscription);
            },
            None => {},
        }
        proof {
            assert(subscription_views(subscribers@) =~= first_subscription(subscription));
        }
        let registration = ZeroCopyListenerRegistration {
            id,
            source_filter: source_filter.clone(),
            sink_filter: cloned_uri(sink_filter),
            listener,
            subscribers,
        };
        let ghost added = registration@;
        self.registrations.push(registration);
        self.next_id = id + 1;
        proof {
            assert(self@.registrations =~= before@.registrations.push(added));
            assert(self@ =~= before@.with_registration(
                source_filter@,
                borrowed_parts(sink_filter),
                listener,
                added.subscribers,
            ));
            assert forall|i: int| 0 <= i < self.registrations@.len() implies (
            #[trigger] self.registrations@[i]).wf() by {
                if i < before.registrations@.len() {
                    assert(before.registrations@[i].wf());
                }
            }
            assert forall|i: int, j: int|
                #![trigger self@.registrations[i], self@.registrations[j]]
                0 <= i < j < self@.registrations.len() implies self@.registrations[i].id
                != self@.registrations[j].id && !self@.registrations[i].has_identity(
                self@.registrations[j].source,
                self@.registrations[j].sink,
                self@.registrations[j].listener,
            ) by {
                assert(self@.registrations[i] == before@.registrations[i]);
                if j < before@.registrations.len() {
                    assert(self@.registrations[j] == before@.registrations[j]);
                }
            }
        }
        Ok(id)
    }

    /// Removes the registration of a listener, and hands back the subscriptions that served it.
    pub fn unregister(
        &mut self,
        source_filter: &UUri,
        sink_filter: Option<&UUri>,
        listener: u64,
    ) -> (result: Result<NamedTable<Subscription>, UStatus>)
        requires
            old(self).wf(),
        ensures
            final(self).wf(),
            ({
                let sink = borrowed_parts(sink_filter);
                match result {
                    Ok(subscribers) => {
                        &&& old(self)@.has(source_filter@, sink, listener)
                        &&& final(self)@ == old(self)@.without_registration(
                            source_filter@,
                            sink,
                            listener,
                        )
                        &&& subscribers.wf()
                        &&& subscription_views(subscribers@) == old(self)@.registrations[old(
                            self,
                        )@.place(source_filter@, sink, listener)].subscribers
                    },
                    Err(_) => !old(self)@.has(source_filter@, sink, listener) && final(self)@
                        == old(self)@ && fails_with(result, UCode::NotFound, not_registered()),
                }
            }),
            result is Ok <==> exists|i: int|
                #![trigger old(self)@.registrations[i]]
                0 <= i < old(self)@.registrations.len() && old(self)@.registrations[i].source
                    == source_filter@ && old(self)@.registrations[i].sink == borrowed_parts(
                    sink_filter,
                ) && old(self)@.registrations[i].listener == listener,
    {
        let ghost before = *self;
        match self.position(source_filter, sink_filter, listener) {
            Some(i) => {
                let removed = self.registrations.remove(i);
                proof {
                    assert(removed@ == before@.registrations[i as int]);
                    assert(before.registrations@[i as int].wf());
                    assert(self@.registrations =~= before@.registrations.remove(i as int));
                    assert forall|k: int| 0 <= k < self.registrations@.len() implies (
                    #[trigger] self.registrations@[k]).wf() by {
                        assert(before.registrations@[if k < i { k } else { k + 1 }].wf());
                    }
                    assert forall|k: int| 0 <= k < self@.registrations.len() implies (
                    #[trigger] self@.registrations[k]).id < self@.next_id by {
                        let m = if k < i {
                            k
                        } else {
                            k + 1
                        };
                        assert(self@.registrations[k] == before@.registrations[m]);
                    }
                    assert forall|k: int, m: int|
                        #![trigger self@.registrations[k], self@.registrations[m]]
                        0 <= k < m < self@.registrations.len() implies self@.registrations[k].id
                        != self@.registrations[m].id && !self@.registrations[k].has_identity(
                        self@.registrations[m].source,
                        self@.registrations[m].sink,
                        self@.registrations[m].listener,
                    ) by {
                        let k0 = if k < i {
                            k
                        } else {
                            k + 1
                        };
                        let m0 = if m < i {
                            m
                        } else {
                            m + 1
                        };
                        assert(self@.registrations[k] == before@.registrations[k0]);
                        assert(self@.registrations[m] == before@.registrations[m0]);
                    }
                }
                Ok(removed.subscribers)
            },
            None => Err(
                UStatus::fail_with_code(
                    UCode::NotFound,
                    "zero-copy listener not registered for filter",
                ),
            ),
        }
    }
}

/// Whether a place of the list of registrations and a place of the list of services come before
/// others, registrations first.
pub open spec fn precedes(i: int, j: int, other_i: int, other_j: int) -> bool {
    i < other_i || (i == other_i && j < other_j)
}

impl ListenerRegistry {
    /// Whether a registration has the given number.
    pub fn is_registered(&self, id: u64) -> (registered: bool)
        ensures
            registered == self@.has_id(id),
    {
        let mut i: usize = 0;
        while i < self.registrations.len()
            invariant
                i <= self.registrations@.len(),
                forall|j: int| 0 <= j < i ==> (#[trigger] self@.registrations[j]).id != id,
            decreases self.registrations@.len() - i,
        {
            if self.registrations[i].id == id {
                proof {
                    assert(self@.registrations[i as int].id == id);
                }
                return true;
            }
            i = i + 1;
        }
        false
    }

    /// Whether a listener is registered, for whatever filters.
    pub fn uses_listener(&self, listener: u64) -> (used: bool)
        ensures
            used == exists|i: int|
                0 <= i < self@.registrations.len() && (#[trigger] self@.registrations[i]).listener
                    == listener,
    {
        let mut i: usize = 0;
        while i < self.registrations.len()
            invariant
                i <= self.registrations@.len(),
                forall|j: int|
                    0 <= j < i ==> (#[trigger] self@.registrations[j]).listener != listener,
            decreases self.registrations@.len() - i,
        {
            if self.registrations[i].listener == listener {
                proof {
                    assert(self@.registrations[i as int].listener == listener);
                }
                return true;
            }
            i = i + 1;
        }
        false
    }

    /// The first registration that lacks a subscriber to a listed service that its filter
    /// matches, and the first such service with its route; on a host of the given name.
    pub fn next_missing_subscription(
        &self,
        services: &Vec<DiscoveredService>,
        host: &str,
    ) -> (missing: Option<(usize, usize, ServiceRoute)>)
        requires
            self.wf(),
        ensures
            match missing {
                Some((i, j, route)) => {
                    &&& i < self@.registrations.len()
                    &&& j < services@.len()
                    &&& self@.registrations[i as int].lacks(services@[j as int]@, host@)
                    &&& route_of(services@[j as int]@, host@) == Some(route@)
                    &&& forall|k: int, m: int|
                        #![trigger self@.registrations[k], services@[m]]
                        0 <= k < self@.registrations.len() && 0 <= m < services@.len() && precedes(
                            k,
                            m,
                            i as int,
                            j as int,
                        ) ==> !self@.registrations[k].lacks(services@[m]@, host@)
                },
                None => forall|k: int, m: int|
                    #![trigger self@.registrations[k], services@[m]]
                    0 <= k < self@.registrations.len() && 0 <= m < services@.len()
                        ==> !self@.registrations[k].lacks(services@[m]@, host@)
                        && self@.registrations[k].serves_as_spelled(services@[m]@, host@),
            },
    {
        let mut i: usize = 0;
        while i < self.registrations.len()
            invariant
                self.wf(),
                i <= self.registrations@.len(),
                forall|k: int, m: int|
                    #![trigger self@.registrations[k], services@[m]]
                    0 <= k < i && 0 <= m < services@.len() ==> !self@.registrations[k].lacks(
                        services@[m]@,
                        host@,
                    ) && self@.registrations[k].serves_as_spelled(services@[m]@, host@),
            decreases self.registrations@.len() - i,
        {
            let registration = &self.registrations[i];
            proof {
                assert(registration.wf());
                assert(self@.registrations[i as int] == registration@);
            }
            let mut j: usize = 0;
            while j < services.len()
                invariant
                    self.wf(),
                    i < self.registrations@.len(),
                    j <= services@.len(),
                    registration.wf(),
                    self@.registrations[i as int] == registration@,
                    forall|k: int, m: int|
                        #![trigger self@.registrations[k], services@[m]]
                        0 <= k < self@.registrations.len() && 0 <= m < services@.len() && precedes(
                            k,
                            m,
                            i as int,
                            j as int,
                        ) ==> !self@.registrations[k].lacks(services@[m]@, host@)
                            && self@.registrations[k].serves_as_spelled(services@[m]@, host@),
                decreases services@.len() - j,
            {
                if !registration.subscribers.contains(services[j].name.as_str())
                    && attributes_match_source_filter_on(
                    &services[j].attributes,
                    &registration.source_filter,
                    host,
                ) {
                    match services[j].route(host) {
                        Some(route) => {
                            return Some((i, j, route));
                        },
                        None => {},
                    }
                }
                j = j + 1;
            }
            i = i + 1;
        }
        None
    }

    /// The first registration whose filter matches a source and which lacks a subscriber to its
    /// service.
    pub fn next_subscription_for_source(&self, service_name: &str, source: &UUri) -> (missing:
        Option<usize>)
        requires
            self.wf(),
        ensures
            match missing {
                Some(i) => {
                    &&& i < self@.registrations.len()
                    &&& self@.registrations[i as int].lacks_source(service_name@, source@)
                    &&& forall|k: int|
                        0 <= k < i ==> !(#[trigger] self@.registrations[k]).lacks_source(
                            service_name@,
                            source@,
                        )
                },
                None => forall|k: int|
                    0 <= k < self@.registrations.len() ==> !(
                    #[trigger] self@.registrations[k]).lacks_source(service_name@, source@),
            },
    {
        let mut i: usize = 0;
        while i < self.registrations.len()
            invariant
                self.wf(),
                i <= self.registrations@.len(),
                forall|k: int|
                    0 <= k < i ==> !(#[trigger] self@.registrations[k]).lacks_source(
                        service_name@,
                        source@,
                    ),
            decreases self.registrations@.len() - i,
        {
            let registration = &self.registrations[i];
            proof {
                assert(registration.wf());
                assert(self@.registrations[i as int] == registration@);
            }
            if registration.source_filter.matches(source) && !registration.subscribers.contains(
                service_name,
            ) {
                return Some(i);
            }
            i = i + 1;
        }
        None
    }

    /// Gives a registration a subscription to a service.
    pub fn attach_subscriber(&mut self, i: usize, subscription: Subscription)
        requires
            old(self).wf(),
            i < old(self)@.registrations.len(),
        ensures
            final(self).wf(),
            final(self)@ == old(self)@.with_subscriber(i as int, subscription@),
    {
        let ghost before = *self;
        proof {
            assert(before.registrations@[i as int].wf());
        }
        let service_name: String = subscription.route.name().to_owned();
        self.registrations[i].subscribers.insert(service_name.as_str(), subscription);
        proof {
            assert(subscription_views(self.registrations@[i as int].subscribers@)
                =~= before@.registrations[i as int].subscribers.insert(
                service_name@,
                subscription@,
            ));
            assert(self@.registrations =~= before@.with_subscriber(
                i as int,
                subscription@,
            ).registrations);
            assert forall|k: int| 0 <= k < self.registrations@.len() implies (
            #[trigger] self.registrations@[k]).wf() by {
                assert(before.registrations@[k].wf());
            }
            assert forall|k: int| 0 <= k < self@.registrations.len() implies (
            #[trigger] self@.registrations[k]).id < self@.next_id by {
                assert(before@.registrations[k].id < before@.next_id);
            }
            assert forall|k: int, m: int|
                #![trigger self@.registrations[k], self@.registrations[m]]
                0 <= k < m < self@.registrations.len() implies self@.registrations[k].id
                != self@.registrations[m].id && !self@.registrations[k].has_identity(
                self@.registrations[m].source,
                self@.registrations[m].sink,
                self@.registrations[m].listener,
            ) by {
                assert(before@.registrations[k].id != before@.registrations[m].id);
            }
        }
    }

    /// Leases a sample that the subscriber of a registration to a service received, for delivery
    /// to its listener, if the route of the service meets the filters of the registration, on a
    /// host of the given name.
    pub fn relay_sample(
        &self,
        i: usize,
        service_name: &str,
        sample: ReceivedSample,
        host: &str,
    ) -> (result: Result<Option<PendingDelivery>, UStatus>)
        requires
            self.wf(),
            i < self@.registrations.len(),
            self@.registrations[i as int].subscribers.dom().contains(service_name@),
        ensures
            is_relay_result(
                self@.registrations[i as int],
                self@.registrations[i as int].subscribers[service_name@].route,
                host@,
                sample,
                result,
            ),
    {
        let registration = &self.registrations[i];
        proof {
            assert(registration.wf());
            assert(self@.registrations[i as int] == registration@);
        }
        let route: &ServiceRoute = match registration.subscribers.get(service_name) {
            Some(subscription) => subscription.route(),
            None => {
                return Ok(None);
            },
        };
        let lease = lease_from_sample(sample, route.source().clone(), cloned_uri(route.sink()))?;
        let source_filter: UUri = normalized_uri(&registration.source_filter, host);
        let sink_filter: Option<UUri> = normalized_optional_uri(
            borrowed_uri(&registration.sink_filter),
            host,
        );
        if !source_filter.matches(lease.source_filter_hint()) || !sink_matches(
            lease.sink_filter_hint(),
            borrowed_uri(&sink_filter),
        ) {
            return Ok(None);
        }
        Ok(
            Some(
                PendingDelivery {
                    registration: registration.id,
                    listener: registration.listener,
                    lease,
                },
            ),
        )
    }

    /// Whether a delivery is still to be made: its registration was not removed meanwhile.
    pub fn admits(&self, delivery: &PendingDelivery) -> (admitted: bool)
        ensures
            admitted == self@.has_id(delivery@.registration),
    {
        self.is_registered(delivery.registration)
    }
}

/// Whether what comes through a service with the given route meets the filters of a registration,
/// on a host of the given name.
pub open spec fn meets_filters(
    registration: RegistrationView,
    route: RouteView,
    host: Seq<char>,
) -> bool {
    normalized(registration.source, host).matches(route.source) && sink_accepted(
        route.sink,
        normalized_option(registration.sink, host),
    )
}

/// The delivery of a sample that came through a service with the given route.
pub open spec fn delivery_of(
    registration: RegistrationView,
    route: RouteView,
    sample: ReceivedSample,
) -> DeliveryView {
    DeliveryView {
        registration: registration.id,
        listener: registration.listener,
        lease: lease_of(sample, route.source, route.sink),
    }
}

/// Whether `result` is what becomes of a sample that a registration received through a service
/// with the given route, on a host of the given name.
pub open spec fn is_relay_result(
    registration: RegistrationView,
    route: RouteView,
    host: Seq<char>,
    sample: ReceivedSample,
    result: Result<Option<PendingDelivery>, UStatus>,
) -> bool {
    match (lease_fault(sample), result) {
        (Some(message), Err(status)) => status.says(UCode::InvalidArgument, message),
        (None, Ok(Some(delivery))) => meets_filters(registration, route, host) && delivery@
            == delivery_of(registration, route, sample),
        (None, Ok(None)) => !meets_filters(registration, route, host),
        _ => false,
    }
}

impl PendingDelivery {
    /// The number of the registration.
    pub fn registration(&self) -> (id: u64)
        ensures
            id == self@.registration,
    {
        self.registration
    }

    /// The listener.
    pub fn listener(&self) -> (listener: u64)
        ensures
            listener == self@.listener,
    {
        self.listener
    }

    /// The lease.
    pub fn into_lease(self) -> (lease: Iceoryx2RxLease)
        ensures
            lease@ == self@.lease,
    {
        self.lease
    }
}

/// What goes to a listener meets the filters of its registration, and every sample that meets them
/// and holds an acceptable frame goes to it.
pub proof fn delivered_sample_meets_filters(
    registration: RegistrationView,
    route: RouteView,
    host: Seq<char>,
    sample: ReceivedSample,
    result: Result<Option<PendingDelivery>, UStatus>,
)
    requires
        is_relay_result(registration, route, host, sample, result),
    ensures
        result is Ok && result->Ok_0 is Some <==> lease_fault(sample) is None && meets_filters(
            registration,
            route,
            host,
        ),
        result is Ok && result->Ok_0 is Some ==> sink_accepted(
            route.sink,
            normalized_option(registration.sink, host),
        ) && result->Ok_0->0@.lease.sink == route.sink && result->Ok_0->0@.listener
            == registration.listener,
{
}

/// What is sent to a sink that the sink filter of a registration does not match goes past its
/// listener, though it is received from a source that the registration asks for.
pub proof fn sample_for_another_sink_is_not_delivered(
    registration: RegistrationView,
    source: UriParts,
    sink: UriParts,
    host: Seq<char>,
    name: Seq<char>,
    sample: ReceivedSample,
    result: Result<Option<PendingDelivery>, UStatus>,
)
    requires
        mapped_service_name(
            source,
            Some(sink),
            MessagingPattern::PublishSubscribe,
            host,
        ) == Ok::<Seq<char>, (UCode, Seq<char>)>(name),
        registration.sink is Some,
        !normalized(registration.sink->0, host).matches(normalized(sink, host)),
        is_relay_result(registration, route_from(name, source, host), host, sample, result),
        lease_fault(sample) is None,
    ensures
        result == Ok::<Option<PendingDelivery>, UStatus>(None),
{
    name_gives_its_sink_back(source, Some(sink), host, name);
}

/// What is sent from the source to the sink that a registration names goes to its listener, where
/// the frame is acceptable.
pub proof fn sample_for_its_sink_is_delivered(
    registration: RegistrationView,
    host: Seq<char>,
    name: Seq<char>,
    sample: ReceivedSample,
    result: Result<Option<PendingDelivery>, UStatus>,
)
    requires
        mapped_service_name(
            registration.source,
            registration.sink,
            MessagingPattern::PublishSubscribe,
            host,
        ) == Ok::<Seq<char>, (UCode, Seq<char>)>(name),
        is_relay_result(
            registration,
            route_from(name, registration.source, host),
            host,
            sample,
            result,
        ),
        lease_fault(sample) is None,
    ensures
        result is Ok,
        result->Ok_0 is Some,
        result->Ok_0->0@.listener == registration.listener,
{
    name_gives_its_sink_back(registration.source, registration.sink, host, name);
    pattern_matches_itself(normalized(registration.source, host));
    sink_filter_accepts_itself(normalized_option(registration.sink, host));
}

/// A service that a registration lacks a subscriber to comes from a source that its filter matches:
/// whether a sample from it is delivered is for the sink filter to say. A listed source without an
/// authority is left out.
pub proof fn missing_service_meets_source_filter(
    registration: RegistrationView,
    service: ServiceView,
    service_name: Seq<char>,
    source: UriParts,
    host: Seq<char>,
)
    ensures
        registration.lacks_source(service_name, source) ==> normalized(
            registration.source,
            host,
        ).matches(route_from(service_name, source, host).source),
        registration.lacks(service, host) ==> route_of(service, host) is Some && (provenance(
            service.attributes,
        )->0.authority.len() > 0 ==> normalized(registration.source, host).matches(
            route_of(service, host)->0.source,
        )),
{
    reveal_strlit("*");
}

/// A sample without an acceptable frame goes to no listener.
pub proof fn rejected_sample_is_not_delivered(
    registration: RegistrationView,
    route: RouteView,
    host: Seq<char>,
    sample: ReceivedSample,
    result: Result<Option<PendingDelivery>, UStatus>,
)
    requires
        is_relay_result(registration, route, host, sample, result),
        lease_fault(sample) is Some,
    ensures
        result is Err,
{
}

/// A new registration is there under its identity and its number, and keeps the registry
/// consistent.
pub proof fn registered_listener_is_there(
    registry: RegistryView,
    source: UriParts,
    sink: Option<UriParts>,
    listener: u64,
    subscribers: Map<Seq<char>, SubscriptionView>,
)
    requires
        registry.consistent(),
        registry.next_id < u64::MAX,
        !registry.has(source, sink, listener),
    ensures
        ({
            let after = registry.with_registration(source, sink, listener, subscribers);
            &&& after.consistent()
            &&& after.has(source, sink, listener)
            &&& after.has_id(registry.next_id)
            &&& !registry.has_id(registry.next_id)
        }),
{
    let after = registry.with_registration(source, sink, listener, subscribers);
    let last = registry.registrations.len() as int;
    assert(after.registrations[last].has_identity(source, sink, listener));
    assert(after.registrations[last].id == registry.next_id);
    assert forall|i: int, j: int|
        #![trigger after.registrations[i], after.registrations[j]]
        0 <= i < j < after.registrations.len() implies after.registrations[i].id
        != after.registrations[j].id && !after.registrations[i].has_identity(
        after.registrations[j].source,
        after.registrations[j].sink,
        after.registrations[j].listener,
    ) by {
        assert(after.registrations[i] == registry.registrations[i]);
        if j < last {
            assert(after.registrations[j] == registry.registrations[j]);
        }
    }
}

/// Unregistering undoes registering: the registrations are what they were before.
pub proof fn unregister_undoes_register(
    registry: RegistryView,
    source: UriParts,
    sink: Option<UriParts>,
    listener: u64,
    subscribers: Map<Seq<char>, SubscriptionView>,
)
    requires
        registry.consistent(),
        registry.next_id < u64::MAX,
        !registry.has(source, sink, listener),
    ensures
        registry.with_registration(source, sink, listener, subscribers).without_registration(
            source,
            sink,
            listener,
        ).registrations == registry.registrations,
{
    registered_listener_is_there(registry, source, sink, listener, subscribers);
    let after = registry.with_registration(source, sink, listener, subscribers);
    let last = registry.registrations.len() as int;
    let place = after.place(source, sink, listener);
    assert(after.registrations[place].has_identity(source, sink, listener));
    assert(after.registrations[last].has_identity(source, sink, listener));
    if place < last {
        assert(registry.registrations[place] == after.registrations[place]);
    }
    assert(after.registrations.remove(last) =~= registry.registrations);
}

/// Once a listener is unregistered, no pending delivery of its registration is made any more.
pub proof fn unregistered_listener_gets_no_delivery(
    registry: RegistryView,
    source: UriParts,
    sink: Option<UriParts>,
    listener: u64,
)
    requires
        registry.consistent(),
        registry.has(source, sink, listener),
    ensures
        ({
            let id = registry.registrations[registry.place(source, sink, listener)].id;
            let after = registry.without_registration(source, sink, listener);
            &&& registry.has_id(id)
            &&& !after.has_id(id)
            &&& !after.has(source, sink, listener)
        }),
{
    let place = registry.place(source, sink, listener);
    let after = registry.without_registration(source, sink, listener);
    assert(registry.registrations[place].has_identity(source, sink, listener));
    assert forall|i: int| 0 <= i < after.registrations.len() implies (
    #[trigger] after.registrations[i]).id != registry.registrations[place].id
        && !after.registrations[i].has_identity(source, sink, listener) by {
        let k = if i < place {
            i
        } else {
            i + 1
        };
        assert(after.registrations[i] == registry.registrations[k]);
    }
}

/// A registry stays consistent when a registration is removed.
pub proof fn removal_keeps_the_registry_consistent(
    registry: RegistryView,
    source: UriParts,
    sink: Option<UriParts>,
    listener: u64,
)
    requires
        registry.consistent(),
        registry.has(source, sink, listener),
    ensures
        registry.without_registration(source, sink, listener).consistent(),
{
    let place = registry.place(source, sink, listener);
    let after = registry.without_registration(source, sink, listener);
    assert(registry.registrations[place].has_identity(source, sink, listener));
    assert forall|i: int| 0 <= i < after.registrations.len() implies (
    #[trigger] after.registrations[i]).id < after.next_id by {
        assert(after.registrations[i] == registry.registrations[if i < place {
            i
        } else {
            i + 1
        }]);
    }
    assert forall|i: int, j: int|
        #![trigger after.registrations[i], after.registrations[j]]
        0 <= i < j < after.registrations.len() implies after.registrations[i].id
        != after.registrations[j].id && !after.registrations[i].has_identity(
        after.registrations[j].source,
        after.registrations[j].sink,
        after.registrations[j].listener,
    ) by {
        let k = if i < place {
            i
        } else {
            i + 1
        };
        let m = if j < place {
            j
        } else {
            j + 1
        };
        assert(after.registrations[i] == registry.registrations[k]);
        assert(after.registrations[j] == registry.registrations[m]);
    }
}

/// A registry stays consistent when a registration gets a subscription.
pub proof fn subscription_keeps_the_registry_consistent(
    registry: RegistryView,
    i: int,
    subscription: SubscriptionView,
)
    requires
        registry.consistent(),
        0 <= i < registry.registrations.len(),
    ensures
        registry.with_subscriber(i, subscription).consistent(),
{
    let after = registry.with_subscriber(i, subscription);
    assert forall|k: int| 0 <= k < after.registrations.len() implies (
    #[trigger] after.registrations[k]).id < after.next_id by {
        assert(registry.registrations[k].id < registry.next_id);
    }
    assert forall|k: int, m: int|
        #![trigger after.registrations[k], after.registrations[m]]
        0 <= k < m < after.registrations.len() implies after.registrations[k].id
        != after.registrations[m].id && !after.registrations[k].has_identity(
        after.registrations[m].source,
        after.registrations[m].sink,
        after.registrations[m].listener,
    ) by {
        assert(registry.registrations[k].id != registry.registrations[m].id);
    }
}

/// The number of a removed registration is never given again, so that a delivery that was pending
/// at the removal stays void, also if the listener is registered anew.
pub proof fn registration_number_is_not_reused(
    registry: RegistryView,
    id: u64,
    source: UriParts,
    sink: Option<UriParts>,
    listener: u64,
    subscribers: Map<Seq<char>, SubscriptionView>,
)
    requires
        id < registry.next_id,
        registry.next_id < u64::MAX,
        !registry.has_id(id),
    ensures
        ({
            let after = registry.with_registration(source, sink, listener, subscribers);
            &&& !after.has_id(id)
            &&& id < after.next_id
        }),
{
    let after = registry.with_registration(source, sink, listener, subscribers);
    assert forall|i: int| 0 <= i < after.registrations.len() implies (
    #[trigger] after.registrations[i]).id != id by {
        if i < registry.registrations.len() {
            assert(after.registrations[i] == registry.registrations[i]);
        }
    }
}

/// A registration that got its missing subscriber does not lack it any more, and the others lack
/// what they lacked.
pub proof fn attached_subscriber_is_not_missing(
    registry: RegistryView,
    i: int,
    service: ServiceView,
    subscription: SubscriptionView,
    host: Seq<char>,
)
    requires
        0 <= i < registry.registrations.len(),
        subscription.route.name == service.name,
    ensures
        ({
            let after = registry.with_subscriber(i, subscription);
            &&& !after.registrations[i].lacks(service, host)
            &&& forall|source: UriParts|
                !(#[trigger] after.registrations[i].lacks_source(service.name, source))
            &&& forall|k: int|
                0 <= k < registry.registrations.len() && k != i ==> #[trigger]
                after.registrations[k] == registry.registrations[k]
        }),
{
}

/// Once no subscription is missing, every registration has a subscriber to every listed service of
/// a source that its filter matches, be the filter exact or not. An authority that URIs do not
/// keep in its given form is left out.
pub proof fn complete_registry_serves_every_match(
    registry: RegistryView,
    services: Seq<ServiceView>,
    k: int,
    m: int,
    source: UriParts,
    host: Seq<char>,
)
    requires
        0 <= k < registry.registrations.len(),
        0 <= m < services.len(),
        !registry.registrations[k].lacks(services[m], host),
        requirements(services[m].attributes) == requirements(source_pairs(source, host)),
        normalized(registry.registrations[k].source, host).matches(normalized(source, host)),
    ensures
        accepted_authority(resolved_authority(source, host)) == Some(
            resolved_authority(source, host),
        ) ==> registry.registrations[k].subscribers.dom().contains(services[m].name),
{
    filter_decides_on_published_source(
        source,
        host,
        services[m].attributes,
        registry.registrations[k].source,
    );
}

/// A registration has the identity of its own source filter, sink filter and listener, and no
/// other.
pub proof fn registration_has_one_identity(
    registration: RegistrationView,
    source: UriParts,
    sink: Option<UriParts>,
    listener: u64,
)
    ensures
        registration.has_identity(registration.source, registration.sink, registration.listener),
        registration.has_identity(source, sink, listener) ==> source == registration.source && sink
            == registration.sink && listener == registration.listener,
{
}

/// A listener is registered for a source and a sink filter exactly if one of the registrations is
/// for that source filter, that sink filter and that listener.
pub proof fn registered_exactly_if_a_registration_says_so(
    registry: RegistryView,
    source: UriParts,
    sink: Option<UriParts>,
    listener: u64,
)
    ensures
        registry.has(source, sink, listener) <==> exists|i: int|
            #![trigger registry.registrations[i]]
            0 <= i < registry.registrations.len() && registry.registrations[i].source == source
                && registry.registrations[i].sink == sink && registry.registrations[i].listener
                == listener,
{
    if exists|i: int|
        #![trigger registry.registrations[i]]
        0 <= i < registry.registrations.len() && registry.registrations[i].source == source
            && registry.registrations[i].sink == sink && registry.registrations[i].listener
            == listener {
        let i = choose|i: int|
            #![trigger registry.registrations[i]]
            0 <= i < registry.registrations.len() && registry.registrations[i].source == source
                && registry.registrations[i].sink == sink && registry.registrations[i].listener
                == listener;
        assert(registry.registrations[i].has_identity(source, sink, listener));
    }
}

/// Registering a listener for one pair of filters says nothing of another pair or another
/// listener: these are registered afterwards exactly if they were before. In particular a listener
/// that is registered for one sink filter can still be registered for a different one.
pub proof fn registering_leaves_other_identities_alone(
    registry: RegistryView,
    source: UriParts,
    sink: Option<UriParts>,
    listener: u64,
    subscribers: Map<Seq<char>, SubscriptionView>,
    other_source: UriParts,
    other_sink: Option<UriParts>,
    other_listener: u64,
)
    requires
        other_source != source || other_sink != sink || other_listener != listener,
    ensures
        registry.with_registration(source, sink, listener, subscribers).has(
            other_source,
            other_sink,
            other_listener,
        ) <==> registry.has(other_source, other_sink, other_listener),
{
    let after = registry.with_registration(source, sink, listener, subscribers);
    if registry.has(other_source, other_sink, other_listener) {
        let i = registry.place(other_source, other_sink, other_listener);
        assert(after.registrations[i] == registry.registrations[i]);
        assert(after.registrations[i].has_identity(other_source, other_sink, other_listener));
    }
    if after.has(other_source, other_sink, other_listener) {
        let i = after.place(other_source, other_sink, other_listener);
        assert(after.registrations[i].has_identity(other_source, other_sink, other_listener));
        assert(registry.registrations[i] == after.registrations[i]);
    }
}

/// A new registration is put behind those that are there, which stay as they are. It has the next
/// number, the filters and the listener that it was made for, and its subscribers.
pub proof fn registration_is_put_last(
    registry: RegistryView,
    source: UriParts,
    sink: Option<UriParts>,
    listener: u64,
    subscribers: Map<Seq<char>, SubscriptionView>,
    i: int,
)
    requires
        registry.next_id < u64::MAX,
    ensures
        ({
            let after = registry.with_registration(source, sink, listener, subscribers);
            let added = after.registrations.last();
            &&& after.registrations.len() == registry.registrations.len() + 1
            &&& 0 <= i < registry.registrations.len() ==> after.registrations[i]
                == registry.registrations[i]
            &&& added.id == registry.next_id
            &&& added.source == source
            &&& added.sink == sink
            &&& added.listener == listener
            &&& added.subscribers == subscribers
            &&& after.next_id == registry.next_id + 1
        }),
{
}

/// Unregistering takes out the registration of the listener for the filters, wherever it stands;
/// those before it stay where they are, those behind it move up, and no number becomes free.
pub proof fn unregistering_takes_out_one_registration(
    registry: RegistryView,
    source: UriParts,
    sink: Option<UriParts>,
    listener: u64,
    place: int,
    i: int,
)
    requires
        registry.consistent(),
        0 <= place < registry.registrations.len(),
        registry.registrations[place].source == source,
        registry.registrations[place].sink == sink,
        registry.registrations[place].listener == listener,
        0 <= i < registry.registrations.len(),
        i != place,
    ensures
        ({
            let after = registry.without_registration(source, sink, listener);
            &&& registry.place(source, sink, listener) == place
            &&& after.registrations.len() == registry.registrations.len() - 1
            &&& i < place ==> after.registrations[i] == registry.registrations[i]
            &&& i > place ==> after.registrations[i - 1] == registry.registrations[i]
            &&& after.next_id == registry.next_id
        }),
{
    assert(registry.registrations[place].has_identity(source, sink, listener));
    let found = registry.place(source, sink, listener);
    assert(registry.registrations[found].has_identity(source, sink, listener));
}

/// A registration has a number exactly if it is its own.
pub proof fn number_is_that_of_a_registration(registry: RegistryView, id: u64, i: int)
    requires
        registry.consistent(),
        0 <= i < registry.registrations.len(),
    ensures
        registry.has_id(registry.registrations[i].id),
        registry.registrations.len() == 1 ==> (registry.has_id(id) <==> registry.registrations[0].id
            == id),
        id >= registry.next_id ==> !registry.has_id(id),
        registry.has_id(id) ==> exists|k: int|
            #![trigger registry.registrations[k]]
            0 <= k < registry.registrations.len() && registry.registrations[k].id == id && forall|
                m: int,
            |
                #![trigger registry.registrations[m]]
                0 <= m < registry.registrations.len() && registry.registrations[m].id == id ==> m
                    == k,
{
    if registry.has_id(id) {
        let k = choose|k: int|
            0 <= k < registry.registrations.len() && (#[trigger] registry.registrations[k]).id
                == id;
        assert forall|m: int|
            #![trigger registry.registrations[m]]
            0 <= m < registry.registrations.len() && registry.registrations[m].id == id implies m
            == k by {
            if m < k {
                assert(registry.registrations[m].id != registry.registrations[k].id);
            } else if k < m {
                assert(registry.registrations[k].id != registry.registrations[m].id);
            }
        }
    }
}

/// A registration that gets a subscription has it under the name of its service, keeps its others,
/// and keeps its number, filters and listener; the other registrations stay as they are.
pub proof fn subscription_is_added_under_its_service(
    registry: RegistryView,
    i: int,
    subscription: SubscriptionView,
    service_name: Seq<char>,
    k: int,
)
    requires
        0 <= i < registry.registrations.len(),
        0 <= k < registry.registrations.len(),
    ensures
        ({
            let after = registry.with_subscriber(i, subscription);
            let before = registry.registrations[i];
            let changed = after.registrations[i];
            &&& after.registrations.len() == registry.registrations.len()
            &&& after.next_id == registry.next_id
            &&& k != i ==> after.registrations[k] == registry.registrations[k]
            &&& changed.id == before.id
            &&& changed.source == before.source
            &&& changed.sink == before.sink
            &&& changed.listener == before.listener
            &&& changed.subscribers.dom().contains(subscription.route.name)
            &&& changed.subscribers[subscription.route.name] == subscription
            &&& service_name != subscription.route.name ==> (
            changed.subscribers.dom().contains(service_name)
                <==> before.subscribers.dom().contains(service_name))
                && changed.subscribers[service_name] == before.subscribers[service_name]
        }),
{
}

/// A registration lacks a subscriber only to services that it has none for. Among these it lacks
/// each that its source filter accepts, and each whose source its source filter matches.
pub proof fn subscriber_is_lacking_exactly_if(
    registration: RegistrationView,
    service: ServiceView,
    source: UriParts,
    host: Seq<char>,
)
    ensures
        registration.subscribers.dom().contains(service.name) ==> !registration.lacks(service, host)
            && !registration.lacks_source(service.name, source) && registration.serves_as_spelled(
            service,
            host,
        ),
        !registration.subscribers.dom().contains(service.name) ==> {
            &&& registration.lacks(service, host) <==> accepts_service(
                service.attributes,
                registration.source,
                host,
            )
            &&& registration.lacks_source(service.name, source) <==> registration.source.matches(
                source,
            )
            &&& registration.serves_as_spelled(service, host) <==> !(spells_plainly(
                service.attributes,
            ) && normalized(registration.source, host).matches(
                spelled_source(service.attributes)->0,
            ))
        },
{
}

/// Places are ordered by the registration, and for one registration by the service.
pub proof fn places_are_ordered_by_registration_first(i: int, j: int, k: int, m: int)
    ensures
        i < k ==> precedes(i, j, k, m) && !precedes(k, m, i, j),
        precedes(i, j, i, m) <==> j < m,
        i != k || j != m ==> (precedes(i, j, k, m) <==> !precedes(k, m, i, j)),
        !precedes(i, j, i, j),
{
}

/// What comes through a service meets the filters of a registration without a sink filter exactly
/// if its source does. With a sink filter it has to have a sink, and both have to match, with the
/// empty authorities of the filters standing for the host.
pub proof fn filters_are_met_one_by_one(
    registration: RegistrationView,
    route: RouteView,
    host: Seq<char>,
)
    ensures
        registration.sink is None ==> (meets_filters(registration, route, host) <==> normalized(
            registration.source,
            host,
        ).matches(route.source)),
        registration.sink is Some && route.sink is None ==> !meets_filters(
            registration,
            route,
            host,
        ),
        registration.sink is Some && route.sink is Some ==> (meets_filters(
            registration,
            route,
            host,
        ) <==> normalized(registration.source, host).matches(route.source) && normalized(
            registration.sink->0,
            host,
        ).matches(route.sink->0)),
{
}

/// Neither the number, nor the listener, nor the subscribers of a registration count for whether
/// its filters are met.
pub proof fn filters_alone_decide(
    registration: RegistrationView,
    other: RegistrationView,
    route: RouteView,
    host: Seq<char>,
)
    requires
        registration.source == other.source,
        registration.sink == other.sink,
    ensures
        meets_filters(registration, route, host) == meets_filters(other, route, host),
{
}

/// A delivery names the number and the listener of its registration, and its lease is that of the
/// sample, from the source and for the sink of the route.
pub proof fn delivery_is_for_its_registration(
    registration: RegistrationView,
    route: RouteView,
    sample: ReceivedSample,
)
    ensures
        ({
            let delivery = delivery_of(registration, route, sample);
            &&& delivery.registration == registration.id
            &&& delivery.listener == registration.listener
            &&& delivery.lease == lease_of(sample, route.source, route.sink)
        }),
{
}

/// A relayed sample is refused with the complaint about its frame, or goes past the listener where
/// the filters are not met, or is delivered under the number of its registration.
pub proof fn relayed_sample_has_one_of_three_fates(
    registration: RegistrationView,
    route: RouteView,
    host: Seq<char>,
    sample: ReceivedSample,
    result: Result<Option<PendingDelivery>, UStatus>,
)
    requires
        is_relay_result(registration, route, host, sample, result),
    ensures
        result is Err <==> lease_fault(sample) is Some,
        result is Err ==> result->Err_0.code == UCode::InvalidArgument
            && result->Err_0.message@ == lease_fault(sample)->0,
        result is Ok ==> (result->Ok_0 is Some <==> meets_filters(registration, route, host)),
        result is Ok && result->Ok_0 is Some ==> result->Ok_0->0@.registration == registration.id
            && result->Ok_0->0@.listener == registration.listener && result->Ok_0->0@.lease
            == lease_of(sample, route.source, route.sink),
{
}

/// A registration begins with no subscriber, or with the one that it is given, under the name of
/// its service. The views of a table of subscriptions are those of the subscriptions.
pub proof fn first_subscription_is_under_its_service(
    subscription: Subscription,
    subscriptions: Map<Seq<char>, Subscription>,
    service_name: Seq<char>,
)
    ensures
        !first_subscription(None).dom().contains(service_name),
        first_subscription(Some(subscription)).dom().contains(service_name) <==> service_name
            == subscription@.route.name,
        first_subscription(Some(subscription))[subscription@.route.name] == subscription@,
        subscription_views(subscriptions).dom() == subscriptions.dom(),
        subscriptions.dom().contains(service_name) ==> subscription_views(
            subscriptions,
        )[service_name] == subscriptions[service_name]@,
{
}

/// The refusals of a second registration and of the removal of an unknown one are worded apart.
pub proof fn registration_refusals_are_worded()
    ensures
        already_registered() == "zero-copy listener already registered for filter"@,
        not_registered() == "zero-copy listener not registered for filter"@,
{
}

} // verus!
