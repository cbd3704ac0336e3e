//! One round of the relay: each subscriber of each registration is asked for one sample, and what
//! was received goes to the listeners afterwards. A round that fails delivers nothing.

use crate::frame::{lease_fault, lease_of, ReceivedSample};
use crate::listeners::{
    delivery_of, meets_filters, subscription_views, DeliveryView, ListenerRegistry, PendingDelivery,
    RegistrationView, RegistryView,
};
use crate::route::RouteView;
use crate::status::{fails_with, UCode, UStatus};
use vstd::prelude::*;
use vstd::string::*;

verus! {

/// A subscriber to be asked for a sample, and the registration that it serves.
pub struct SubscriberPoll {
    registration: usize,
    service_name: String,
    subscriber: u64,
}

/// The parts of a poll.
pub struct PollView {
    pub registration: int,
    pub service_name: Seq<char>,
    pub subscriber: u64,
}

impl View for SubscriberPoll {
    type V = PollView;

    closed spec fn view(&self) -> PollView {
        PollView {
            registration: self.registration as int,
            service_name: self.service_name@,
            subscriber: self.subscriber,
        }
    }
}

/// What asking a subscriber gave.
pub enum RelayEvent {
    /// A sample.
    Sample(ReceivedSample),
    /// No sample.
    Empty,
    /// A failure, with its description.
    Failed(String),
}

/// A round of the relay.
pub struct RelayRound {
    polls: Vec<SubscriberPoll>,
    next: usize,
    received: Vec<PendingDelivery>,
    host: String,
}

/// The polls of a round, the place of the next of them, what was received, and the name of the
/// host.
pub struct RoundView {
    pub polls: Seq<PollView>,
    pub next: nat,
    pub received: Seq<DeliveryView>,
    pub host: Seq<char>,
}

impl View for RelayRound {
    type V = RoundView;

    closed spec fn view(&self) -> RoundView {
        RoundView {
            polls: poll_views(self.polls@),
            next: self.next as nat,
            received: delivery_views(self.received@),
            host: self.host@,
        }
    }
}

/// The views of a sequence of polls.
pub open spec fn poll_views(polls: Seq<SubscriberPoll>) -> Seq<PollView> {
    polls.map_values(|poll: SubscriberPoll| poll@)
}

/// The views of a sequence of deliveries.
pub open spec fn delivery_views(deliveries: Seq<PendingDelivery>) -> Seq<DeliveryView> {
    deliveries.map_values(|delivery: PendingDelivery| delivery@)
}

/// Whether a poll asks a subscriber of the registration that it names.
pub open spec fn is_poll_of(registrations: Seq<RegistrationView>, poll: PollView) -> bool {
    &&& 0 <= poll.registration < registrations.len()
    &&& registrations[poll.registration].subscribers.dom().contains(poll.service_name)
    &&& registrations[poll.registration].subscribers[poll.service_name].subscriber
        == poll.subscriber
}

/// Whether the subscriber of a registration to a service is among those that are asked.
pub open spec fn is_polled(polls: Seq<PollView>, i: int, service_name: Seq<char>) -> bool {
    exists|p: int|
        0 <= p < polls.len() && (#[trigger] polls[p]).registration == i && polls[p].service_name
            == service_name
}

/// Whether the polls ask each subscriber of each registration once, registration by registration.
pub open spec fn polls_cover(registrations: Seq<RegistrationView>, polls: Seq<PollView>) -> bool {
    &&& forall|p: int| 0 <= p < polls.len() ==> is_poll_of(registrations, #[trigger] polls[p])
    &&& forall|i: int, service_name: Seq<char>|
        #![trigger is_polled(polls, i, service_name)]
        0 <= i < registrations.len() && registrations[i].subscribers.dom().contains(service_name)
            ==> is_polled(polls, i, service_name)
    &&& forall|p: int, q: int|
        #![trigger polls[p], polls[q]]
        0 <= p < q < polls.len() ==> polls[p].registration <= polls[q].registration && (
        polls[p].registration != polls[q].registration || polls[p].service_name
            != polls[q].service_name)
}

/// The route of the service that a poll asks.
pub open spec fn polled_route(registrations: Seq<RegistrationView>, poll: PollView) -> RouteView {
    registrations[poll.registration].subscribers[poll.service_name].route
}

/// Whether a delivery is one of a sample that a poll gave, to the listener of the registration of
/// the poll, whose filters it meets.
pub open spec fn is_delivery_from(
    registrations: Seq<RegistrationView>,
    host: Seq<char>,
    poll: PollView,
    delivery: DeliveryView,
) -> bool {
    let registration = registrations[poll.registration];
    let route = polled_route(registrations, poll);
    &&& delivery.registration == registration.id
    &&& delivery.listener == registration.listener
    &&& delivery.lease.source == route.source
    &&& delivery.lease.sink == route.sink
    &&& meets_filters(registration, route, host)
}

/// Whether the deliveries of a round come from the polls at the given places: each from one poll
/// that was made, and no two from the same.
pub open spec fn are_origins(
    registrations: Seq<RegistrationView>,
    round: RoundView,
    origins: Seq<int>,
) -> bool {
    &&& origins.len() == round.received.len()
    &&& forall|k: int|
        0 <= k < origins.len() ==> 0 <= #[trigger] origins[k] < round.next && is_delivery_from(
            registrations,
            round.host,
            round.polls[origins[k]],
            round.received[k],
        )
    &&& forall|k: int, m: int|
        #![trigger origins[k], origins[m]]
        0 <= k < m < origins.len() ==> origins[k] < origins[m]
}

impl RoundView {
    /// Whether the round is one over the given registrations: it asks each of their subscribers
    /// once, and its deliveries come from polls that were made.
    pub open spec fn is_over(self, registrations: Seq<RegistrationView>) -> bool {
        &&& polls_cover(registrations, self.polls)
        &&& self.next <= self.polls.len()
        &&& exists|origins: Seq<int>| #[trigger] are_origins(registrations, self, origins)
    }
}

/// Whether the round stands at `after` and `result` is reported, where it stood at `before` and
/// `event` was what the next poll gave. A failure ends the round, and takes back what was received
/// before it.
pub open spec fn is_round_step(
    registrations: Seq<RegistrationView>,
    before: RoundView,
    event: RelayEvent,
    after: RoundView,
    result: Result<(), UStatus>,
) -> bool {
    let poll = before.polls[before.next as int];
    let registration = registrations[poll.registration];
    let route = polled_route(registrations, poll);
    &&& after.polls == before.polls
    &&& after.host == before.host
    &&& result is Ok ==> after.next == before.next + 1
    &&& result is Err ==> after.next == before.polls.len() && after.received == Seq::<
        DeliveryView,
    >::empty()
    &&& match event {
        RelayEvent::Empty => result is Ok && after.received == before.received,
        RelayEvent::Failed(description) => fails_with(
            result,
            UCode::Internal,
            "failed to receive iceoryx2 sample: "@ + description@,
        ),
        RelayEvent::Sample(sample) => match lease_fault(sample) {
            Some(message) => fails_with(result, UCode::InvalidArgument, message),
            None => result is Ok && after.received == if meets_filters(
                registration,
                route,
                before.host,
            ) {
                before.received.push(delivery_of(registration, route, sample))
            } else {
                before.received
            },
        },
    }
}

impl ListenerRegistry {
    /// The subscribers to be asked in a round.
    fn polls(&self) -> (polls: Vec<SubscriberPoll>)
        requires
            self.wf(),
        ensures
            polls_cover(self@.registrations, poll_views(polls@)),
    {
        let mut polls: Vec<SubscriberPoll> = Vec::new();
        let ghost registrations = self@.registrations;
        let mut i: usize = 0;
        while i < self.len()
            invariant
                self.wf(),
                registrations == self@.registrations,
                i <= registrations.len(),
                forall|p: int|
                    0 <= p < poll_views(polls@).len() ==> is_poll_of(
                        registrations,
                        #[trigger] poll_views(polls@)[p],
                    ) && poll_views(polls@)[p].registration < i,
                forall|k: int, service_name: Seq<char>|
                    #![trigger is_polled(poll_views(polls@), k, service_name)]
                    0 <= k < i && registrations[k].subscribers.dom().contains(service_name)
                        ==> is_polled(poll_views(polls@), k, service_name),
                forall|p: int, q: int|
                    #![trigger poll_views(polls@)[p], poll_views(polls@)[q]]
                    0 <= p < q < poll_views(polls@).len() ==> poll_views(polls@)[p].registration
                        <= poll_views(polls@)[q].registration && (poll_views(polls@)[p].registration
                        != poll_views(polls@)[q].registration || poll_views(polls@)[p].service_name
                        != poll_views(polls@)[q].service_name),
            decreases registrations.len() - i,
        {
            let subscribers = self.subscribers_of(i);
            let ghost order = subscribers.order();
            proof {
                subscribers.order_lists_each_name_once();
            }
            let mut j: usize = 0;
            while j < subscribers.len()
                invariant
                    registrations == self@.registrations,
                    i < registrations.len(),
                    subscribers.wf(),
                    subscription_views(subscribers@) == registrations[i as int].subscribers,
                    order == subscribers.order(),
                    order.no_duplicates(),
                    j <= order.len(),
                    forall|p: int|
                        0 <= p < poll_views(polls@).len() ==> is_poll_of(
                            registrations,
                            #[trigger] poll_views(polls@)[p],
                        ) && poll_views(polls@)[p].registration <= i,
                    forall|p: int|
                        0 <= p < poll_views(polls@).len() && (
                        #[trigger] poll_views(polls@)[p]).registration == i ==> exists|m: int|
                            0 <= m < j && #[trigger] order[m] == poll_views(polls@)[p].service_name,
                    forall|k: int, service_name: Seq<char>|
                        #![trigger is_polled(poll_views(polls@), k, service_name)]
                        0 <= k < i && registrations[k].subscribers.dom().contains(service_name)
                            ==> is_polled(poll_views(polls@), k, service_name),
                    forall|m: int|
                        0 <= m < j ==> is_polled(poll_views(polls@), i as int, #[trigger] order[m]),
                    forall|p: int, q: int|
                        #![trigger poll_views(polls@)[p], poll_views(polls@)[q]]
                        0 <= p < q < poll_views(polls@).len() ==> poll_views(polls@)[p].registration
                            <= poll_views(polls@)[q].registration && (poll_views(
                            polls@,
                        )[p].registration != poll_views(polls@)[q].registration || poll_views(
                            polls@,
                        )[p].service_name != poll_views(polls@)[q].service_name),
                decreases order.len() - j,
            {
                let ghost before = poll_views(polls@);
                let (service_name, subscription) = subscribers.entry(j);
                let subscriber: u64 = subscription.subscriber();
                polls.push(
                    SubscriberPoll {
                        registration: i,
                        service_name: service_name.to_owned(),
                        subscriber,
                    },
                );
                proof {
                    let after = poll_views(polls@);
                    let last = before.len() as int;
                    assert(after =~= before.push(
                        PollView {
                            registration: i as int,
                            service_name: service_name@,
                            subscriber,
                        },
                    ));
                    assert(order[j as int] == after[last].service_name);
                    assert forall|k: int, name: Seq<char>| is_polled(
                        before,
                        k,
                        name,
                    ) implies #[trigger] is_polled(after, k, name) by {
                        let p = choose|p: int|
                            0 <= p < before.len() && (#[trigger] before[p]).registration == k
                                && before[p].service_name == name;
                        assert(after[p] == before[p]);
                    }
                    assert forall|k: int, name: Seq<char>|
                        0 <= k < i && registrations[k].subscribers.dom().contains(
                            name,
                        ) implies #[trigger] is_polled(after, k, name) by {
                        assert(is_polled(before, k, name));
                    }
                    assert forall|m: int| 0 <= m < j + 1 implies is_polled(
                        after,
                        i as int,
                        #[trigger] order[m],
                    ) by {
                        if m < j {
                            assert(is_polled(before, i as int, order[m]));
                        } else {
                            assert(after[last].registration == i);
                        }
                    }
                    assert forall|p: int|
                        0 <= p < after.len() && (#[trigger] after[p]).registration
                            == i implies exists|m: int|
                        0 <= m < j + 1 && #[trigger] order[m] == after[p].service_name by {
                        if p < last {
                            assert(after[p] == before[p]);
                            let m = choose|m: int|
                                0 <= m < j && #[trigger] order[m] == before[p].service_name;
                            assert(order[m] == after[p].service_name);
                        }
                    }
                    assert forall|p: int, q: int|
                        #![trigger after[p], after[q]]
                        0 <= p < q < after.len() implies after[p].registration
                        <= after[q].registration && (after[p].registration
                        != after[q].registration || after[p].service_name
                        != after[q].service_name) by {
                        assert(after[p] == before[p]);
                        if q < last {
                            assert(after[q] == before[q]);
                        } else if after[p].registration == i {
                            let m = choose|m: int|
                                0 <= m < j && #[trigger] order[m] == before[p].service_name;
                            assert(order[m] != order[j as int]);
                        }
                    }
                }
                j = j + 1;
            }
            proof {
                let all = poll_views(polls@);
                assert forall|k: int, name: Seq<char>|
                    0 <= k < i + 1 && registrations[k].subscribers.dom().contains(
                        name,
                    ) implies #[trigger] is_polled(all, k, name) by {
                    if k == i {
                        assert(subscribers@.dom().contains(name));
                        assert(order.to_set().contains(name));
                        let m = choose|m: int| 0 <= m < order.len() && order[m] == name;
                        assert(is_polled(all, i as int, order[m]));
                    }
                }
            }
            i = i + 1;
        }
        polls
    }
}

impl RelayRound {
    /// A round over the registered listeners, on a host of the given name.
    pub fn begin(registry: &ListenerRegistry, host: &str) -> (round: RelayRound)
        requires
            registry.wf(),
        ensures
            round@.is_over(registry@.registrations),
            round@.next == 0,
            round@.received == Seq::<DeliveryView>::empty(),
            round@.host == host@,
    {
        let round = RelayRound {
            polls: registry.polls(),
            next: 0,
            received: Vec::new(),
            host: host.to_owned(),
        };
        proof {
            assert(round@.received =~= Seq::<DeliveryView>::empty());
            assert(are_origins(registry@.registrations, round@, Seq::empty()));
        }
        round
    }

    /// The subscriber to be asked next; there is none at the end of the round.
    pub fn next_subscriber(&self) -> (subscriber: Option<u64>)
        ensures
            match subscriber {
                Some(subscriber) => self@.next < self@.polls.len() && subscriber
                    == self@.polls[self@.next as int].subscriber,
                None => self@.next >= self@.polls.len(),
            },
    {
        if self.next < self.polls.len() {
            Some(self.polls[self.next].subscriber)
        } else {
            None
        }
    }

    /// Ends the round without deliveries.
    fn give_up(&mut self)
        ensures
            final(self)@ == (RoundView {
                next: old(self)@.polls.len(),
                received: Seq::empty(),
                ..old(self)@
            }),
    {
        self.next = self.polls.len();
        self.received = Vec::new();
        proof {
            assert(self@.received =~= Seq::<DeliveryView>::empty());
        }
    }

    /// Goes on with what the next subscriber gave. A failure ends the round: no subscriber is
    /// asked after it, and nothing that was received is delivered.
    pub fn step(&mut self, registry: &ListenerRegistry, event: RelayEvent) -> (result: Result<
        (),
        UStatus,
    >)
        requires
            registry.wf(),
            old(self)@.is_over(registry@.registrations),
            old(self)@.next < old(self)@.polls.len(),
        ensures
            final(self)@.is_over(registry@.registrations),
            is_round_step(registry@.registrations, old(self)@, event, final(self)@, result),
    {
        let ghost before = self@;
        let ghost registrations = registry@.registrations;
        let ghost origins = choose|origins: Seq<int>| #[trigger]
            are_origins(registrations, before, origins);
        proof {
            assert(is_poll_of(registrations, before.polls[before.next as int]));
            assert(self.next < self.polls.len());
        }
        let delivery: Option<PendingDelivery> = match event {
            RelayEvent::Empty => None,
            RelayEvent::Failed(description) => {
                self.give_up();
                proof {
                    assert(are_origins(registrations, self@, Seq::empty()));
                }
                let message: String = String::from_str(
                    "failed to receive iceoryx2 sample: ",
                ).concat(description.as_str());
                return Err(UStatus { code: UCode::Internal, message });
            },
            RelayEvent::Sample(sample) => {
                let poll: &SubscriberPoll = &self.polls[self.next];
                proof {
                    assert(before.polls[before.next as int] == poll@);
                }
                match registry.relay_sample(
                    poll.registration,
                    poll.service_name.as_str(),
                    sample,
                    self.host.as_str(),
                ) {
                    Ok(delivery) => delivery,
                    Err(status) => {
                        self.give_up();
                        proof {
                            assert(are_origins(registrations, self@, Seq::empty()));
                        }
                        return Err(status);
                    },
                }
            },
        };
        let ghost place = self.next as int;
        self.next = self.next + 1;
        match delivery {
            Some(delivery) => {
                self.received.push(delivery);
                proof {
                    assert(self@.received =~= before.received.push(delivery@));
                    assert(are_origins(registrations, self@, origins.push(place)));
                }
            },
            None => {
                proof {
                    assert(are_origins(registrations, self@, origins));
                }
            },
        }
        Ok(())
    }

    /// What was received, in the order in which it was.
    pub fn into_deliveries(self) -> (deliveries: Vec<PendingDelivery>)
        ensures
            delivery_views(deliveries@) == self@.received,
    {
        self.received
    }
}

/// A round that failed calls no listener: nothing is left to be delivered, and nothing more is
/// asked for.
pub proof fn failed_round_calls_no_listener(
    registrations: Seq<RegistrationView>,
    before: RoundView,
    event: RelayEvent,
    after: RoundView,
    result: Result<(), UStatus>,
)
    requires
        is_round_step(registrations, before, event, after, result),
        result is Err,
    ensures
        after.received == Seq::<DeliveryView>::empty(),
        after.next >= after.polls.len(),
{
}

/// A sample without an acceptable frame fails the round, and one that the filters of its
/// registration do not accept is passed over: neither is dispatched.
pub proof fn rejected_frame_is_not_dispatched(
    registrations: Seq<RegistrationView>,
    before: RoundView,
    sample: ReceivedSample,
    after: RoundView,
    result: Result<(), UStatus>,
)
    requires
        is_round_step(registrations, before, RelayEvent::Sample(sample), after, result),
    ensures
        lease_fault(sample) is Some ==> result is Err && after.received == Seq::<
            DeliveryView,
        >::empty(),
        lease_fault(sample) is None && !meets_filters(
            registrations[before.polls[before.next as int].registration],
            polled_route(registrations, before.polls[before.next as int]),
            before.host,
        ) ==> result is Ok && after.received == before.received,
{
}

/// A round calls the listener of a registration at most once for each service that the
/// registration subscribes to: two deliveries to one registration come through different services.
pub proof fn listener_is_called_once_per_service(
    registry: RegistryView,
    round: RoundView,
    origins: Seq<int>,
    k: int,
    m: int,
)
    requires
        registry.consistent(),
        round.is_over(registry.registrations),
        are_origins(registry.registrations, round, origins),
        0 <= k < m < round.received.len(),
        round.received[k].registration == round.received[m].registration,
    ensures
        round.polls[origins[k]].registration == round.polls[origins[m]].registration,
        round.polls[origins[k]].service_name != round.polls[origins[m]].service_name,
{
    let registrations = registry.registrations;
    let first = round.polls[origins[k]];
    let second = round.polls[origins[m]];
    assert(is_poll_of(registrations, first));
    assert(is_poll_of(registrations, second));
    assert(origins[k] < origins[m]);
    let i = first.registration;
    let j = second.registration;
    if i < j {
        assert(registrations[i].id != registrations[j].id);
    } else if j < i {
        assert(registrations[j].id != registrations[i].id);
    }
}

/// Whether a poll that gave `event` is to give a delivery: it gave a sample with an acceptable
/// frame, and the route of the service meets the filters of the registration.
pub open spec fn is_to_be_delivered(
    registrations: Seq<RegistrationView>,
    host: Seq<char>,
    poll: PollView,
    event: RelayEvent,
) -> bool {
    &&& event is Sample
    &&& lease_fault(event->Sample_0) is None
    &&& meets_filters(
        registrations[poll.registration],
        registrations[poll.registration].subscribers[poll.service_name].route,
        host,
    )
}

/// A poll that gives an acceptable sample for its registration adds one delivery, behind those that
/// were there, for that registration, its listener and that sample. One that gives no such sample
/// adds nothing. This goes by the poll alone: what was delivered before has no part in it.
pub proof fn each_matching_sample_is_delivered(
    registrations: Seq<RegistrationView>,
    before: RoundView,
    event: RelayEvent,
    after: RoundView,
    result: Result<(), UStatus>,
    i: int,
)
    requires
        is_round_step(registrations, before, event, after, result),
        result is Ok,
    ensures
        ({
            let poll = before.polls[before.next as int];
            let registration = registrations[poll.registration];
            let route = registration.subscribers[poll.service_name].route;
            let added = after.received.last();
            &&& is_to_be_delivered(registrations, before.host, poll, event) ==> {
                &&& after.received.len() == before.received.len() + 1
                &&& added.registration == registration.id
                &&& added.listener == registration.listener
                &&& added.lease == lease_of(event->Sample_0, route.source, route.sink)
            }
            &&& !is_to_be_delivered(registrations, before.host, poll, event)
                ==> after.received.len() == before.received.len()
            &&& 0 <= i < before.received.len() ==> after.received[i] == before.received[i]
            &&& after.next == before.next + 1
            &&& after.polls == before.polls
            &&& after.host == before.host
        }),
{
}

/// A round fails at a poll exactly if the subscriber failed, or gave a sample without an acceptable
/// frame; it fails with the description or the complaint.
pub proof fn round_fails_exactly_if_a_poll_does(
    registrations: Seq<RegistrationView>,
    before: RoundView,
    event: RelayEvent,
    after: RoundView,
    result: Result<(), UStatus>,
)
    requires
        is_round_step(registrations, before, event, after, result),
    ensures
        result is Err <==> event is Failed || event is Sample && lease_fault(event->Sample_0)
            is Some,
        event is Failed ==> result->Err_0.code == UCode::Internal && result->Err_0.message@
            == "failed to receive iceoryx2 sample: "@ + event->Failed_0@,
        event is Sample && result is Err ==> result->Err_0.code == UCode::InvalidArgument
            && result->Err_0.message@ == lease_fault(event->Sample_0)->0,
        result is Err ==> after.received.len() == 0 && after.next == before.polls.len(),
{
}

/// Whether `rounds` are the states that a round goes through without failing, from its beginning
/// on, where its polls give `events`.
pub open spec fn goes_through(
    registrations: Seq<RegistrationView>,
    rounds: Seq<RoundView>,
    events: Seq<RelayEvent>,
) -> bool {
    &&& rounds.len() == events.len() + 1
    &&& rounds[0].next == 0
    &&& rounds[0].received.len() == 0
    &&& forall|p: int|
        0 <= p < events.len() ==> #[trigger] is_round_step(
            registrations,
            rounds[p],
            events[p],
            rounds[p + 1],
            Ok(()),
        )
}

/// Whether the deliveries of a round are exactly those of the polls at the given places, one each
/// and in the order of the polls: each of these gave a sample that is to be delivered, and its
/// delivery is that of the sample to the registration of the poll; and no other poll that was made
/// gave such a sample.
pub open spec fn are_exact_origins(
    registrations: Seq<RegistrationView>,
    round: RoundView,
    events: Seq<RelayEvent>,
    origins: Seq<int>,
) -> bool {
    &&& origins.len() == round.received.len()
    &&& forall|k: int| #![trigger origins[k]]
        0 <= k < origins.len() ==> {
            let poll = round.polls[origins[k]];
            let registration = registrations[poll.registration];
            let route = registration.subscribers[poll.service_name].route;
            &&& 0 <= origins[k] < events.len()
            &&& is_to_be_delivered(registrations, round.host, poll, events[origins[k]])
            &&& round.received[k].registration == registration.id
            &&& round.received[k].listener == registration.listener
            &&& round.received[k].lease == lease_of(
                events[origins[k]]->Sample_0,
                route.source,
                route.sink,
            )
        }
    &&& forall|k: int, m: int|
        #![trigger origins[k], origins[m]]
        0 <= k < m < origins.len() ==> origins[k] < origins[m]
    &&& forall|p: int| #![trigger round.polls[p], events[p]]
        0 <= p < events.len() && is_to_be_delivered(
            registrations,
            round.host,
            round.polls[p],
            events[p],
        ) ==> origins.contains(p)
}

/// In a round that does not fail the deliveries are exactly those of the polls that gave an
/// acceptable sample whose route meets the filters of the registration, one delivery for each: two
/// services of one registration that both give such a sample give two deliveries.
pub proof fn round_delivers_each_matching_sample_once(
    registrations: Seq<RegistrationView>,
    rounds: Seq<RoundView>,
    events: Seq<RelayEvent>,
)
    requires
        goes_through(registrations, rounds, events),
    ensures
        exists|origins: Seq<int>| #[trigger]
            are_exact_origins(registrations, rounds.last(), events, origins),
        rounds.last().next == events.len(),
        rounds.last().polls == rounds[0].polls,
        rounds.last().host == rounds[0].host,
    decreases events.len(),
{
    if events.len() == 0 {
        assert(are_exact_origins(registrations, rounds.last(), events, Seq::empty()));
    } else {
        let n = events.len() - 1;
        let fewer = events.drop_last();
        let earlier = rounds.drop_last();
        assert forall|p: int| 0 <= p < fewer.len() implies #[trigger] is_round_step(
            registrations,
            earlier[p],
            fewer[p],
            earlier[p + 1],
            Ok(()),
        ) by {
            assert(is_round_step(registrations, rounds[p], events[p], rounds[p + 1], Ok(())));
        }
        round_delivers_each_matching_sample_once(registrations, earlier, fewer);
        let before = earlier.last();
        let after = rounds.last();
        let event = events[n];
        assert(before == rounds[n] && after == rounds[n + 1]);
        assert(is_round_step(registrations, rounds[n], events[n], rounds[n + 1], Ok(())));
        let known = choose|origins: Seq<int>| #[trigger]
            are_exact_origins(registrations, before, fewer, origins);
        let poll = before.polls[n];
        assert forall|p: int| 0 <= p < n implies #[trigger] events[p] == fewer[p] by {}
        assert forall|k: int| 0 <= k < known.len() implies 0 <= #[trigger] known[k] < n by {}
        if is_to_be_delivered(registrations, before.host, poll, event) {
            let origins = known.push(n);
            assert forall|k: int| #![trigger origins[k]] 0 <= k < origins.len() implies {
                let poll = after.polls[origins[k]];
                let registration = registrations[poll.registration];
                let route = registration.subscribers[poll.service_name].route;
                &&& 0 <= origins[k] < events.len()
                &&& is_to_be_delivered(registrations, after.host, poll, events[origins[k]])
                &&& after.received[k].registration == registration.id
                &&& after.received[k].listener == registration.listener
                &&& after.received[k].lease == lease_of(
                    events[origins[k]]->Sample_0,
                    route.source,
                    route.sink,
                )
            } by {
                if k < known.len() {
                    assert(origins[k] == known[k]);
                    assert(after.received[k] == before.received[k]);
                    assert(events[known[k]] == fewer[known[k]]);
                }
            }
            assert forall|p: int| #![trigger after.polls[p], events[p]]
                0 <= p < events.len() && is_to_be_delivered(
                    registrations,
                    after.host,
                    after.polls[p],
                    events[p],
                ) implies origins.contains(p) by {
                if p < n {
                    assert(fewer[p] == events[p]);
                    assert(before.polls[p] == after.polls[p]);
                    assert(known.contains(p));
                    let k = choose|k: int| 0 <= k < known.len() && known[k] == p;
                    assert(origins[k] == p);
                } else {
                    assert(origins[known.len() as int] == p);
                }
            }
            assert(are_exact_origins(registrations, after, events, origins));
        } else {
            assert forall|p: int| #![trigger after.polls[p], events[p]]
                0 <= p < events.len() && is_to_be_delivered(
                    registrations,
                    after.host,
                    after.polls[p],
                    events[p],
                ) implies known.contains(p) by {
                if p < n {
                    assert(fewer[p] == events[p]);
                    assert(before.polls[p] == after.polls[p]);
                }
            }
            assert forall|k: int| 0 <= k < known.len() implies events[#[trigger] known[k]]
                == fewer[known[k]] by {}
            assert(are_exact_origins(registrations, after, events, known));
        }
    }
}

/// Each subscriber of each registration is asked in a round, at one place and no other, under its
/// own number; and nobody else is asked.
pub proof fn each_subscriber_is_asked_once(
    registrations: Seq<RegistrationView>,
    polls: Seq<PollView>,
    i: int,
    service_name: Seq<char>,
    p: int,
)
    requires
        polls_cover(registrations, polls),
        0 <= p < polls.len(),
    ensures
        0 <= i < registrations.len() && registrations[i].subscribers.dom().contains(service_name)
            ==> exists|q: int|
            #![trigger polls[q]]
            0 <= q < polls.len() && polls[q].registration == i && polls[q].service_name
                == service_name && polls[q].subscriber
                == registrations[i].subscribers[service_name].subscriber && forall|r: int|
                #![trigger polls[r]]
                0 <= r < polls.len() && polls[r].registration == i && polls[r].service_name
                    == service_name ==> r == q,
        0 <= polls[p].registration < registrations.len(),
        registrations[polls[p].registration].subscribers.dom().contains(polls[p].service_name),
        polls[p].subscriber
            == registrations[polls[p].registration].subscribers[polls[p].service_name].subscriber,
{
    assert(is_poll_of(registrations, polls[p]));
    if 0 <= i < registrations.len() && registrations[i].subscribers.dom().contains(service_name) {
        assert(is_polled(polls, i, service_name));
        let q = choose|q: int|
            0 <= q < polls.len() && (#[trigger] polls[q]).registration == i
                && polls[q].service_name == service_name;
        assert(is_poll_of(registrations, polls[q]));
        assert forall|r: int|
            #![trigger polls[r]]
            0 <= r < polls.len() && polls[r].registration == i && polls[r].service_name
                == service_name implies r == q by {
            if r < q {
                assert(polls[r].service_name != polls[q].service_name);
            } else if q < r {
                assert(polls[q].service_name != polls[r].service_name);
            }
        }
    }
}

/// Registrations are asked in their order.
pub proof fn registrations_are_asked_in_order(
    registrations: Seq<RegistrationView>,
    polls: Seq<PollView>,
    p: int,
    q: int,
)
    requires
        polls_cover(registrations, polls),
        0 <= p < q < polls.len(),
    ensures
        polls[p].registration <= polls[q].registration,
{
}

/// The views of polls and of deliveries are theirs, place by place.
pub proof fn poll_and_delivery_views_are_the_views(
    polls: Seq<SubscriberPoll>,
    deliveries: Seq<PendingDelivery>,
    i: int,
)
    ensures
        poll_views(polls).len() == polls.len(),
        0 <= i < polls.len() ==> poll_views(polls)[i] == polls[i]@,
        delivery_views(deliveries).len() == deliveries.len(),
        0 <= i < deliveries.len() ==> delivery_views(deliveries)[i] == deliveries[i]@,
{
}

/// A delivery that comes from a poll is to the registration of the poll and its listener, from the
/// source and for the sink of the service that was asked, which meets the filters. So two
/// deliveries from one poll differ in their samples at most.
pub proof fn delivery_comes_through_the_service_of_its_poll(
    registrations: Seq<RegistrationView>,
    host: Seq<char>,
    poll: PollView,
    delivery: DeliveryView,
)
    requires
        is_delivery_from(registrations, host, poll, delivery),
    ensures
        ({
            let registration = registrations[poll.registration];
            let route = registration.subscribers[poll.service_name].route;
            &&& delivery.registration == registration.id
            &&& delivery.listener == registration.listener
            &&& delivery.lease.source == route.source
            &&& delivery.lease.sink == route.sink
            &&& meets_filters(registration, route, host)
        }),
{
}

} // verus!
