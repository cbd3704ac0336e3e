//! Samples that a pull receive took from iceoryx2 for another sink, kept for later receives.

use crate::frame::{Iceoryx2RxLease, LeaseView};
use crate::named_table::NamedTable;
use crate::status::{UCode, UStatus};
use crate::text::{decimal, encode_decimal};
use crate::uuri::{borrowed_parts, sink_accepted, sink_matches, UUri, UriParts};
use std::collections::VecDeque;
use vstd::prelude::*;
use vstd::string::*;

verus! {

/// What happens to a mismatched sample when the queue of its service is full.
#[derive(Clone, Copy, Debug, PartialEq, Eq, Structural)]
pub enum Iceoryx2PullMismatchQueueFullPolicy {
    DropOldestAndReport,
    RejectNewestAndReport,
}

/// How the queues of mismatched samples stand.
#[derive(Clone, Debug, Default, PartialEq, Eq)]
pub struct PullMismatchQueueDiagnostics {
    pub current_depth: usize,
    pub dropped_mismatches: u64,
    pub rejected_mismatches: u64,
    pub last_mismatch_reason: Option<String>,
}

/// The queues of mismatched samples, by service.
pub struct PullReceiveQueueState {
    queues: NamedTable<VecDeque<Iceoryx2RxLease>>,
    dropped_mismatches: u64,
    rejected_mismatches: u64,
    last_mismatch_reason: Option<String>,
}

/// The contents of the queues, and what was counted and reported.
#[verifier::ext_equal]
pub struct QueueStateView {
    pub queues: Map<Seq<char>, Seq<LeaseView>>,
    pub dropped: u64,
    pub rejected: u64,
    pub reason: Option<Seq<char>>,
}

/// The views of a sequence of leases.
pub open spec fn lease_views(leases: Seq<Iceoryx2RxLease>) -> Seq<LeaseView> {
    leases.map_values(|lease: Iceoryx2RxLease| lease@)
}

/// The view of an optional text.
pub open spec fn optional_text(text: Option<String>) -> Option<Seq<char>> {
    match text {
        Some(text) => Some(text@),
        None => None,
    }
}

/// One more, up to the largest number.
pub open spec fn counted(n: u64) -> u64 {
    if n < u64::MAX {
        (n + 1) as u64
    } else {
        n
    }
}

/// The number of leases in all queues.
pub open spec fn depth(queues: Map<Seq<char>, Seq<LeaseView>>) -> nat
    decreases queues.dom().len(),
    when queues.dom().finite()
{
    if queues.dom().len() == 0 {
        0
    } else {
        let name = queues.dom().choose();
        queues[name].len() + depth(queues.remove(name))
    }
}

impl QueueStateView {
    /// The queue of a service.
    pub open spec fn queue(self, service_name: Seq<char>) -> Seq<LeaseView> {
        if self.queues.dom().contains(service_name) {
            self.queues[service_name]
        } else {
            Seq::empty()
        }
    }

    /// Whether no queue holds more than `capacity` leases.
    pub open spec fn within(self, capacity: nat) -> bool {
        forall|name: Seq<char>| #[trigger]
            self.queues.dom().contains(name) ==> self.queues[name].len() <= capacity
    }
}

/// What becomes of a mismatched lease.
pub struct Queueing {
    /// The state afterwards.
    pub state: QueueStateView,
    /// The lease that is in no queue afterwards: the oldest one, or the mismatched one itself.
    pub released: Option<LeaseView>,
    /// The message of the refusal, if the lease was refused.
    pub refusal: Option<Seq<char>>,
}

/// What becomes of a lease that no receive asked for.
pub open spec fn queueing(
    state: QueueStateView,
    capacity: nat,
    policy: Iceoryx2PullMismatchQueueFullPolicy,
    service_name: Seq<char>,
    lease: LeaseView,
) -> Queueing {
    let queue = state.queue(service_name);
    let full = queue.len() >= capacity;
    if capacity == 0 {
        Queueing {
            state: QueueStateView {
                dropped: counted(state.dropped),
                reason: Some(
                    "dropped mismatched pull sample for "@ + service_name + "; capacity is 0"@,
                ),
                ..state
            },
            released: Some(lease),
            refusal: None,
        }
    } else if full && policy == Iceoryx2PullMismatchQueueFullPolicy::RejectNewestAndReport {
        Queueing {
            state: QueueStateView {
                rejected: counted(state.rejected),
                reason: Some(
                    "rejected newest mismatched pull sample for "@ + service_name
                        + "; capacity is "@ + decimal(capacity),
                ),
                ..state
            },
            released: Some(lease),
            refusal: Some(
                "pull mismatch queue full for "@ + service_name + "; capacity is "@ + decimal(
                    capacity,
                ),
            ),
        }
    } else {
        let kept = if full {
            queue.skip(1)
        } else {
            queue
        };
        Queueing {
            state: QueueStateView {
                queues: state.queues.insert(service_name, kept.push(lease)),
                dropped: if full {
                    counted(state.dropped)
                } else {
                    state.dropped
                },
                reason: Some(
                    "queued mismatched pull sample for "@ + service_name + "; depth is "@
                        + decimal(kept.len() + 1),
                ),
                ..state
            },
            released: if full {
                Some(queue[0])
            } else {
                None
            },
            refusal: None,
        }
    }
}

/// Whether `i` is the place of the oldest lease whose sink meets the filter.
pub open spec fn is_oldest_accepted(
    queue: Seq<LeaseView>,
    sink_filter: Option<UriParts>,
    i: int,
) -> bool {
    &&& 0 <= i < queue.len()
    &&& sink_accepted(queue[i].sink, sink_filter)
    &&& forall|j: int| 0 <= j < i ==> !sink_accepted(#[trigger] queue[j].sink, sink_filter)
}

/// The queues without the lease at a place of one of them; a queue that becomes empty goes.
pub open spec fn without_lease(
    queues: Map<Seq<char>, Seq<LeaseView>>,
    service_name: Seq<char>,
    i: int,
) -> Map<Seq<char>, Seq<LeaseView>> {
    let rest = queues[service_name].remove(i);
    if rest.len() == 0 {
        queues.remove(service_name)
    } else {
        queues.insert(service_name, rest)
    }
}

impl View for PullReceiveQueueState {
    type V = QueueStateView;

    closed spec fn view(&self) -> QueueStateView {
        QueueStateView {
            queues: self.queues@.map_values(|queue: VecDeque<Iceoryx2RxLease>| lease_views(queue@)),
            dropped: self.dropped_mismatches,
            rejected: self.rejected_mismatches,
            reason: optional_text(self.last_mismatch_reason),
        }
    }
}

/// The text with a number at its end.
fn numbered(text: &str, service_name: &str, then: &str, number: usize) -> (message: String)
    ensures
        message@ == text@ + service_name@ + then@ + decimal(number as nat),
{
    String::from_str(text).concat(service_name).concat(then).concat(encode_decimal(number).as_str())
}

/// One more, up to the largest number.
fn count_one(n: u64) -> (m: u64)
    ensures
        m == counted(n),
{
    n.saturating_add(1)
}

impl PullReceiveQueueState {
    /// Each service has at most one queue, and no queue is empty.
    pub closed spec fn wf(self) -> bool {
        &&& self.queues.wf()
        &&& forall|name: Seq<char>| #[trigger]
            self.queues@.dom().contains(name) ==> self.queues@[name]@.len() > 0
    }

    /// A well-formed state has finitely many queues, none of them empty.
    pub proof fn well_formed_queues_are_not_empty(self)
        requires
            self.wf(),
        ensures
            self@.queues.dom().finite(),
            forall|name: Seq<char>| #[trigger]
                self@.queues.dom().contains(name) ==> self@.queues[name].len() > 0,
    {
        self.queues.order_lists_each_name_once();
        assert(self@.queues.dom() =~= self.queues@.dom());
    }

    /// No queues, and nothing counted or reported.
    pub fn new() -> (state: Self)
        ensures
            state.wf(),
            state@ == (QueueStateView {
                queues: Map::empty(),
                dropped: 0,
                rejected: 0,
                reason: None,
            }),
    {
        let state = PullReceiveQueueState {
            queues: NamedTable::new(),
            dropped_mismatches: 0,
            rejected_mismatches: 0,
            last_mismatch_reason: None,
        };
        proof {
            assert(state@.queues =~= Map::empty());
        }
        state
    }

    /// Keeps a lease that the running receive did not ask for, as far as the queue of its service
    /// has room. The lease that is in no queue afterwards is handed back.
    pub fn queue_pull_sample(
        &mut self,
        capacity: usize,
        policy: Iceoryx2PullMismatchQueueFullPolicy,
        service_name: &str,
        lease: Iceoryx2RxLease,
    ) -> (result: (Option<Iceoryx2RxLease>, Result<(), UStatus>))
        requires
            old(self).wf(),
        ensures
            final(self).wf(),
            ({
                let expected = queueing(
                    old(self)@,
                    capacity as nat,
                    policy,
                    service_name@,
                    lease@,
                );
                &&& final(self)@ == expected.state
                &&& match result.0 {
                    Some(released) => expected.released == Some(released@),
                    None => expected.released is None,
                }
                &&& match result.1 {
                    Ok(()) => expected.refusal is None,
                    Err(status) => match expected.refusal {
                        Some(message) => status.says(UCode::ResourceExhausted, message),
                        None => false,
                    },
                }
            }),
    {
        let ghost before = *self;
        if capacity == 0 {
            self.dropped_mismatches = count_one(self.dropped_mismatches);
            let reason: String = String::from_str("dropped mismatched pull sample for ").concat(
                service_name,
            ).concat("; capacity is 0");
            self.last_mismatch_reason = Some(reason);
            return (Some(lease), Ok(()));
        }
        let depth_before: usize = match self.queues.get(service_name) {
            Some(queue) => queue.len(),
            None => 0,
        };
        let is_full: bool = depth_before >= capacity;
        if is_full && policy == Iceoryx2PullMismatchQueueFullPolicy::RejectNewestAndReport {
            self.rejected_mismatches = count_one(self.rejected_mismatches);
            self.last_mismatch_reason = Some(
                numbered(
                    "rejected newest mismatched pull sample for ",
                    service_name,
                    "; capacity is ",
                    capacity,
                ),
            );
            let message: String = numbered(
                "pull mismatch queue full for ",
                service_name,
                "; capacity is ",
                capacity,
            );
            return (Some(lease), Err(UStatus { code: UCode::ResourceExhausted, message }));
        }
        let mut queue: VecDeque<Iceoryx2RxLease> = match self.queues.remove(service_name) {
            Some(queue) => queue,
            None => VecDeque::new(),
        };
        let ghost all = queue@;
        proof {
            assert(lease_views(all) =~= before@.queue(service_name@));
        }
        let released: Option<Iceoryx2RxLease> = if is_full {
            queue.pop_front()
        } else {
            None
        };
        queue.push_back(lease);
        let depth: usize = queue.len();
        proof {
            let kept = if is_full {
                lease_views(all).skip(1)
            } else {
                lease_views(all)
            };
            assert(lease_views(queue@) =~= kept.push(lease@));
        }
        let ghost stored = queue;
        self.queues.insert(service_name, queue);
        if is_full {
            self.dropped_mismatches = count_one(self.dropped_mismatches);
        }
        self.last_mismatch_reason = Some(
            numbered(
                "queued mismatched pull sample for ",
                service_name,
                "; depth is ",
                depth,
            ),
        );
        proof {
            assert(self.queues@ =~= before.queues@.insert(service_name@, stored));
            assert(self@.queues =~= before@.queues.insert(service_name@, lease_views(stored@)));
        }
        (released, Ok(()))
    }

    /// Takes the oldest lease of a service whose sink meets the filter.
    pub fn pop_queued_pull_sample(&mut self, service_name: &str, sink_filter: Option<&UUri>) -> (
    lease: Option<Iceoryx2RxLease>)
        requires
            old(self).wf(),
        ensures
            final(self).wf(),
            match lease {
                Some(lease) => exists|i: int| #[trigger]
                    is_oldest_accepted(
                        old(self)@.queue(service_name@),
                        borrowed_parts(sink_filter),
                        i,
                    ) && lease@ == old(self)@.queue(service_name@)[i] && final(self)@ == (
                    QueueStateView {
                        queues: without_lease(old(self)@.queues, service_name@, i),
                        ..old(self)@
                    }),
                None => final(self)@ == old(self)@ && forall|i: int|
                    0 <= i < old(self)@.queue(service_name@).len() ==> !sink_accepted(
                        (#[trigger] old(self)@.queue(service_name@)[i]).sink,
                        borrowed_parts(sink_filter),
                    ),
            },
    {
        let ghost before = *self;
        let ghost filter = borrowed_parts(sink_filter);
        let index: usize = match self.queues.get(service_name) {
            None => {
                return None;
            },
            Some(queue) => {
                let ghost views = lease_views(queue@);
                proof {
                    assert(views =~= before@.queue(service_name@));
                }
                let mut i: usize = 0;
                while i < queue.len() && !sink_matches(queue[i].sink_filter_hint(), sink_filter)
                    invariant
                        i <= queue@.len(),
                        views == lease_views(queue@),
                        filter == borrowed_parts(sink_filter),
                        forall|j: int|
                            0 <= j < i ==> !sink_accepted(#[trigger] views[j].sink, filter),
                    decreases queue@.len() - i,
                {
                    i = i + 1;
                }
                if i == queue.len() {
                    return None;
                }
                proof {
                    assert(is_oldest_accepted(views, filter, i as int));
                }
                i
            },
        };
        let mut queue: VecDeque<Iceoryx2RxLease> = match self.queues.remove(service_name) {
            Some(queue) => queue,
            None => {
                return None;
            },
        };
        let ghost all = queue@;
        let lease = queue.remove(index);
        let ghost stored = queue;
        proof {
            assert(lease_views(all) =~= before@.queue(service_name@));
            assert(lease_views(stored@) =~= lease_views(all).remove(index as int));
        }
        if queue.len() > 0 {
            self.queues.insert(service_name, queue);
        }
        proof {
            let i = index as int;
            if stored@.len() == 0 {
                assert(self@.queues =~= before@.queues.remove(service_name@));
            } else {
                assert(self.queues@ =~= before.queues@.insert(service_name@, stored));
                assert(self@.queues =~= before@.queues.insert(
                    service_name@,
                    lease_views(stored@),
                ));
            }
            assert(is_oldest_accepted(before@.queue(service_name@), filter, i));
        }
        lease
    }

    /// How the queues stand. The number of leases in all of them must be a machine size.
    pub fn diagnostics(&self) -> (diagnostics: PullMismatchQueueDiagnostics)
        requires
            self.wf(),
            depth(self@.queues) <= usize::MAX,
        ensures
            diagnostics.current_depth == depth(self@.queues),
            diagnostics.dropped_mismatches == self@.dropped,
            diagnostics.rejected_mismatches == self@.rejected,
            optional_text(diagnostics.last_mismatch_reason) == self@.reason,
    {
        let mut current_depth: usize = 0;
        let mut i: usize = 0;
        let ghost order = self.queues.order();
        let ghost mut rest = self@.queues;
        proof {
            self.queues.order_lists_each_name_once();
            assert(rest.dom() =~= self.queues@.dom());
            assert forall|name: Seq<char>| rest.dom().contains(name) == exists|j: int|
                0 <= j < order.len() && #[trigger] order[j] == name by {
                assert(order.to_set().contains(name) == self.queues@.dom().contains(name));
            }
        }
        while i < self.queues.len()
            invariant
                self.wf(),
                i <= order.len(),
                order == self.queues.order(),
                order.no_duplicates(),
                rest.dom().finite(),
                current_depth + depth(rest) == depth(self@.queues),
                depth(self@.queues) <= usize::MAX,
                forall|name: Seq<char>|
                    rest.dom().contains(name) == exists|j: int|
                        i <= j < order.len() && #[trigger] order[j] == name,
                forall|name: Seq<char>| #[trigger]
                    rest.dom().contains(name) ==> rest[name] == self@.queues[name],
            decreases order.len() - i,
        {
            let (name, queue) = self.queues.entry(i);
            proof {
                assert(order[i as int] == name@);
                assert(rest.dom().contains(name@));
                depth_splits_by_queue(rest, name@);
                rest = rest.remove(name@);
                assert forall|other: Seq<char>|
                    rest.dom().contains(other) == exists|j: int|
                        i + 1 <= j < order.len() && #[trigger] order[j] == other by {
                    if exists|j: int| i + 1 <= j < order.len() && #[trigger] order[j] == other {
                        let j = choose|j: int|
                            i + 1 <= j < order.len() && #[trigger] order[j] == other;
                        assert(order[j] != order[i as int]);
                    }
                }
            }
            current_depth = current_depth + queue.len();
            i = i + 1;
        }
        proof {
            assert(rest.dom() =~= Set::empty());
        }
        let last_mismatch_reason: Option<String> = match &self.last_mismatch_reason {
            Some(reason) => Some(reason.clone()),
            None => None,
        };
        PullMismatchQueueDiagnostics {
            current_depth,
            dropped_mismatches: self.dropped_mismatches,
            rejected_mismatches: self.rejected_mismatches,
            last_mismatch_reason,
        }
    }
}

/// The depth is that of any one queue and of the others.
pub proof fn depth_splits_by_queue(queues: Map<Seq<char>, Seq<LeaseView>>, name: Seq<char>)
    requires
        queues.dom().finite(),
        queues.dom().contains(name),
    ensures
        depth(queues) == queues[name].len() + depth(queues.remove(name)),
    decreases queues.dom().len(),
{
    let chosen = queues.dom().choose();
    if chosen != name {
        depth_splits_by_queue(queues.remove(chosen), name);
        depth_splits_by_queue(queues.remove(name), chosen);
        assert(queues.remove(chosen).remove(name) =~= queues.remove(name).remove(chosen));
    }
}

/// The depth where one queue is put in the place of another, or beside the others.
proof fn lemma_depth_with_queue(
    queues: Map<Seq<char>, Seq<LeaseView>>,
    name: Seq<char>,
    queue: Seq<LeaseView>,
)
    requires
        queues.dom().finite(),
    ensures
        depth(queues.insert(name, queue)) == queue.len() + depth(queues.remove(name)),
{
    let with = queues.insert(name, queue);
    depth_splits_by_queue(with, name);
    assert(with.remove(name) =~= queues.remove(name));
}

/// Queueing a sample adds one to the number of kept samples, or none where a sample is handed back.
pub proof fn queueing_adds_at_most_one(
    state: QueueStateView,
    capacity: nat,
    policy: Iceoryx2PullMismatchQueueFullPolicy,
    service_name: Seq<char>,
    lease: LeaseView,
)
    requires
        state.queues.dom().finite(),
    ensures
        ({
            let after = queueing(state, capacity, policy, service_name, lease);
            &&& after.state.queues.dom().finite()
            &&& depth(after.state.queues) == if after.released is Some {
                depth(state.queues)
            } else {
                depth(state.queues) + 1
            }
        }),
{
    let after = queueing(state, capacity, policy, service_name, lease).state;
    let others = state.queues.remove(service_name);
    if state.queues.dom().contains(service_name) {
        depth_splits_by_queue(state.queues, service_name);
    } else {
        assert(others =~= state.queues);
    }
    lemma_depth_with_queue(state.queues, service_name, after.queue(service_name));
}

/// Taking a kept sample takes one from their number.
pub proof fn taking_removes_one(
    queues: Map<Seq<char>, Seq<LeaseView>>,
    service_name: Seq<char>,
    i: int,
)
    requires
        queues.dom().finite(),
        queues.dom().contains(service_name),
        0 <= i < queues[service_name].len(),
    ensures
        without_lease(queues, service_name, i).dom().finite(),
        depth(without_lease(queues, service_name, i)) + 1 == depth(queues),
{
    depth_splits_by_queue(queues, service_name);
    lemma_depth_with_queue(queues, service_name, queues[service_name].remove(i));
}

/// A queue never holds more than its capacity.
pub proof fn queues_stay_within_capacity(
    state: QueueStateView,
    capacity: nat,
    policy: Iceoryx2PullMismatchQueueFullPolicy,
    service_name: Seq<char>,
    lease: LeaseView,
)
    requires
        state.within(capacity),
    ensures
        queueing(state, capacity, policy, service_name, lease).state.within(capacity),
{
}

/// No lease gets lost or out of order: those that were queued, with the new one behind them, are
/// those that are queued afterwards and the one that is handed back, which is the oldest or the
/// newest of them.
pub proof fn leases_are_kept_in_order_or_handed_back(
    state: QueueStateView,
    capacity: nat,
    policy: Iceoryx2PullMismatchQueueFullPolicy,
    service_name: Seq<char>,
    lease: LeaseView,
)
    ensures
        ({
            let after = queueing(state, capacity, policy, service_name, lease);
            let all = state.queue(service_name).push(lease);
            let kept = after.state.queue(service_name);
            match after.released {
                None => kept == all,
                Some(released) => all == seq![released] + kept || all == kept.push(released),
            }
        }),
{
    let after = queueing(state, capacity, policy, service_name, lease);
    let queue = state.queue(service_name);
    if after.released is Some && after.released != Some(lease) {
        assert(queue.push(lease) =~= seq![queue[0]] + after.state.queue(service_name));
    } else if after.released is Some && capacity > 0 && policy
        == Iceoryx2PullMismatchQueueFullPolicy::DropOldestAndReport {
        assert(queue.push(lease) =~= seq![queue[0]] + after.state.queue(service_name));
    }
}

/// Queueing for one service leaves the queues of the others as they are.
pub proof fn other_services_are_untouched(
    state: QueueStateView,
    capacity: nat,
    policy: Iceoryx2PullMismatchQueueFullPolicy,
    service_name: Seq<char>,
    lease: LeaseView,
    other: Seq<char>,
)
    requires
        other != service_name,
    ensures
        queueing(state, capacity, policy, service_name, lease).state.queue(other) == state.queue(
            other,
        ),
{
}

/// A lease leaves the queues unreported at no time: where one is handed back, the count of
/// dropped or of rejected samples grows, as far as it can.
pub proof fn every_lost_sample_is_counted(
    state: QueueStateView,
    capacity: nat,
    policy: Iceoryx2PullMismatchQueueFullPolicy,
    service_name: Seq<char>,
    lease: LeaseView,
)
    ensures
        ({
            let after = queueing(state, capacity, policy, service_name, lease);
            &&& after.state.reason is Some
            &&& after.refusal is Some ==> after.state.rejected == counted(state.rejected)
                && after.state.dropped == state.dropped
            &&& after.refusal is None && after.released is Some ==> after.state.dropped == counted(
                state.dropped,
            ) && after.state.rejected == state.rejected
            &&& after.released is None ==> after.state.dropped == state.dropped
                && after.state.rejected == state.rejected
        }),
{
}

/// A count grows by one until it is the largest number, and stays there.
pub proof fn count_grows_by_one_up_to_the_largest(n: u64)
    ensures
        n < u64::MAX ==> counted(n) == n + 1,
        n == u64::MAX ==> counted(n) == u64::MAX,
{
}

/// A service that no queue is kept for has an empty one.
pub proof fn service_without_a_queue_has_no_leases(state: QueueStateView, service_name: Seq<char>)
    ensures
        state.queues.dom().contains(service_name) ==> state.queue(service_name)
            == state.queues[service_name],
        !state.queues.dom().contains(service_name) ==> state.queue(service_name).len() == 0,
{
}

/// No queue is longer than a capacity exactly if none that is kept is.
pub proof fn capacity_holds_for_every_service(
    state: QueueStateView,
    capacity: nat,
    service_name: Seq<char>,
)
    requires
        state.within(capacity),
    ensures
        state.queue(service_name).len() <= capacity,
{
    if state.queues.dom().contains(service_name) {
        assert(state.queues[service_name].len() <= capacity);
    }
}

/// Where the queue of a service has room, a mismatched lease is put behind those that are there:
/// nothing is dropped, rejected or handed back.
pub proof fn queue_with_room_takes_the_lease(
    state: QueueStateView,
    capacity: nat,
    policy: Iceoryx2PullMismatchQueueFullPolicy,
    service_name: Seq<char>,
    lease: LeaseView,
)
    requires
        state.queue(service_name).len() < capacity,
    ensures
        ({
            let after = queueing(state, capacity, policy, service_name, lease);
            &&& after.state.queue(service_name) == state.queue(service_name).push(lease)
            &&& after.state.dropped == state.dropped
            &&& after.state.rejected == state.rejected
            &&& after.released is None
            &&& after.refusal is None
            &&& after.state.reason == Some(
                "queued mismatched pull sample for "@ + service_name + "; depth is "@ + decimal(
                    state.queue(service_name).len() + 1,
                ),
            )
        }),
{
}

/// Where the queue of a service is full and the oldest lease is to go, it is the first that goes:
/// the others move up, the new one is put behind them, and one more is counted as dropped.
pub proof fn full_queue_loses_its_oldest_lease(
    state: QueueStateView,
    capacity: nat,
    service_name: Seq<char>,
    lease: LeaseView,
    i: int,
)
    requires
        0 < capacity <= state.queue(service_name).len(),
        0 <= i < state.queue(service_name).len() - 1,
    ensures
        ({
            let after = queueing(
                state,
                capacity,
                Iceoryx2PullMismatchQueueFullPolicy::DropOldestAndReport,
                service_name,
                lease,
            );
            let queue = after.state.queue(service_name);
            &&& queue.len() == state.queue(service_name).len()
            &&& queue[i] == state.queue(service_name)[i + 1]
            &&& queue.last() == lease
            &&& after.released == Some(state.queue(service_name)[0])
            &&& after.refusal is None
            &&& after.state.rejected == state.rejected
            &&& after.state.dropped == if state.dropped < u64::MAX {
                (state.dropped + 1) as u64
            } else {
                u64::MAX
            }
            &&& after.state.reason == Some(
                "queued mismatched pull sample for "@ + service_name + "; depth is "@ + decimal(
                    state.queue(service_name).len(),
                ),
            )
        }),
{
}

/// Where a full queue holds one lease only, the new one takes its place.
pub proof fn full_queue_of_one_is_replaced(
    state: QueueStateView,
    service_name: Seq<char>,
    lease: LeaseView,
)
    requires
        state.queue(service_name).len() == 1,
    ensures
        ({
            let after = queueing(
                state,
                1,
                Iceoryx2PullMismatchQueueFullPolicy::DropOldestAndReport,
                service_name,
                lease,
            );
            &&& after.state.queue(service_name) == seq![lease]
            &&& after.released == Some(state.queue(service_name)[0])
        }),
{
    let after = queueing(
        state,
        1,
        Iceoryx2PullMismatchQueueFullPolicy::DropOldestAndReport,
        service_name,
        lease,
    );
    assert(after.state.queue(service_name) =~= seq![lease]);
}

/// Where the queue of a service is full and the newest lease is to go, the queues stay as they are,
/// the new lease is handed back with a refusal, and one more is counted as rejected.
pub proof fn full_queue_refuses_the_newest_lease(
    state: QueueStateView,
    capacity: nat,
    service_name: Seq<char>,
    lease: LeaseView,
)
    requires
        0 < capacity <= state.queue(service_name).len(),
    ensures
        ({
            let after = queueing(
                state,
                capacity,
                Iceoryx2PullMismatchQueueFullPolicy::RejectNewestAndReport,
                service_name,
                lease,
            );
            &&& after.state.queues == state.queues
            &&& after.released == Some(lease)
            &&& after.refusal == Some(
                "pull mismatch queue full for "@ + service_name + "; capacity is "@ + decimal(
                    capacity,
                ),
            )
            &&& after.state.dropped == state.dropped
            &&& after.state.rejected == if state.rejected < u64::MAX {
                (state.rejected + 1) as u64
            } else {
                u64::MAX
            }
            &&& after.state.reason == Some(
                "rejected newest mismatched pull sample for "@ + service_name + "; capacity is "@
                    + decimal(capacity),
            )
        }),
{
}

/// Without capacity every mismatched lease is handed back at once and counted as dropped, whatever
/// the policy, and nothing is refused.
pub proof fn without_capacity_every_lease_is_dropped(
    state: QueueStateView,
    policy: Iceoryx2PullMismatchQueueFullPolicy,
    service_name: Seq<char>,
    lease: LeaseView,
)
    ensures
        ({
            let after = queueing(state, 0, policy, service_name, lease);
            &&& after.state.queues == state.queues
            &&& after.released == Some(lease)
            &&& after.refusal is None
            &&& after.state.rejected == state.rejected
            &&& after.state.dropped == if state.dropped < u64::MAX {
                (state.dropped + 1) as u64
            } else {
                u64::MAX
            }
            &&& after.state.reason == Some(
                "dropped mismatched pull sample for "@ + service_name + "; capacity is 0"@,
            )
        }),
{
}

/// The oldest accepted lease is accepted and stands before every other accepted one; so there is
/// one such place at most, and there is one where any lease is accepted.
pub proof fn oldest_accepted_lease_is_the_first(
    queue: Seq<LeaseView>,
    sink_filter: Option<UriParts>,
    i: int,
    k: int,
)
    requires
        0 <= k < queue.len(),
        sink_accepted(queue[k].sink, sink_filter),
    ensures
        is_oldest_accepted(queue, sink_filter, i) ==> 0 <= i <= k && sink_accepted(
            queue[i].sink,
            sink_filter,
        ),
        exists|place: int| #[trigger] is_oldest_accepted(queue, sink_filter, place),
    decreases k,
{
    if exists|j: int| 0 <= j < k && sink_accepted((#[trigger] queue[j]).sink, sink_filter) {
        let j = choose|j: int| 0 <= j < k && sink_accepted((#[trigger] queue[j]).sink, sink_filter);
        oldest_accepted_lease_is_the_first(queue, sink_filter, i, j);
    } else {
        assert(is_oldest_accepted(queue, sink_filter, k));
    }
}

/// Where a lease is taken from the queue of a service, those before it stay where they are and
/// those behind it move up; the queues of other services stay, and no empty queue is kept.
pub proof fn taking_leaves_the_other_leases(
    state: QueueStateView,
    service_name: Seq<char>,
    i: int,
    j: int,
    other: Seq<char>,
)
    requires
        state.queues.dom().contains(service_name),
        0 <= i < state.queue(service_name).len(),
        0 <= j < state.queue(service_name).len() - 1,
    ensures
        ({
            let after = QueueStateView {
                queues: without_lease(state.queues, service_name, i),
                ..state
            };
            let queue = after.queue(service_name);
            &&& queue.len() == state.queue(service_name).len() - 1
            &&& queue[j] == state.queue(service_name)[if j < i {
                j
            } else {
                j + 1
            }]
            &&& other != service_name ==> after.queue(other) == state.queue(other)
            &&& after.queues.dom().contains(other) ==> state.queues.dom().contains(other)
        }),
{
}

/// Where the only lease of a service is taken, its queue goes, and the others stay.
pub proof fn taking_the_only_lease_removes_the_queue(
    state: QueueStateView,
    service_name: Seq<char>,
    other: Seq<char>,
)
    requires
        state.queues.dom().contains(service_name),
        state.queue(service_name).len() == 1,
    ensures
        ({
            let queues = without_lease(state.queues, service_name, 0);
            &&& !queues.dom().contains(service_name)
            &&& other != service_name ==> queues.dom().contains(other)
                == state.queues.dom().contains(other) && queues[other] == state.queues[other]
        }),
{
}

/// Without queues the depth is zero.
pub proof fn no_queues_have_no_depth()
    ensures
        depth(Map::<Seq<char>, Seq<LeaseView>>::empty()) == 0,
{
}

/// The views of leases are those of the leases, place by place; an optional text is its text.
pub proof fn lease_views_are_the_views(leases: Seq<Iceoryx2RxLease>, i: int, text: String)
    requires
        0 <= i < leases.len(),
    ensures
        lease_views(leases).len() == leases.len(),
        lease_views(leases)[i] == leases[i]@,
        optional_text(Some(text)) == Some(text@),
        optional_text(None) is None,
{
}

} // verus!
