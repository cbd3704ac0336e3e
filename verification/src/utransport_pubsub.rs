//! The state of a publish-subscribe transport.
//!
//! [`Iceoryx2PubSub`] holds what the transport decides by. The ports of iceoryx2, the samples and
//! the listeners belong to the program around it, which knows them by the numbers that stand here.

use crate::config::Iceoryx2PubSubConfig;
use crate::discovery::{
    all_names, discover_matching_service_names, discover_service_names, matching_names,
    service_views, DiscoveredService,
};
use crate::listeners::{ListenerRegistry, RegistryView};
use crate::named_table::NamedTable;
use crate::ports::{port_failure_to_status, PortFailure};
use crate::pull::PendingSourceFilters;
use crate::pull_queue::{
    depth, optional_text, PullMismatchQueueDiagnostics, PullReceiveQueueState, QueueStateView,
};
use crate::service_name_mapping::{
    compute_exact_source_publish_subscribe_service_name, compute_service_name, depends_on_host,
    mapped_service_name, outcome, MessagingPattern,
};
use crate::status::UStatus;
use crate::text::views;
use crate::uuri::{borrowed_parts, ExactUUri, UUri, UriParts};
use vstd::prelude::*;
use vstd::string::*;

verus! {

/// The state of a publish-subscribe transport.
pub struct Iceoryx2PubSub {
    pub config: Iceoryx2PubSubConfig,
    pub publishers: NamedTable<u64>,
    pub pull_subscribers: NamedTable<u64>,
    pub pending_pull_source_filters: PendingSourceFilters,
    pub pull_receive_queue_state: PullReceiveQueueState,
    pub zero_copy_listeners: ListenerRegistry,
}

impl Iceoryx2PubSub {
    /// Each part of the state is well-formed.
    pub open spec fn wf(self) -> bool {
        &&& self.publishers.wf()
        &&& self.pull_subscribers.wf()
        &&& self.pending_pull_source_filters@.no_duplicates()
        &&& self.pull_receive_queue_state.wf()
        &&& self.zero_copy_listeners.wf()
    }

    /// Whether the transport has the given settings, and has no ports, listeners or kept samples.
    pub open spec fn is_fresh(self, config: Iceoryx2PubSubConfig) -> bool {
        &&& self.wf()
        &&& self.config == config
        &&& self.publishers@ == Map::<Seq<char>, u64>::empty()
        &&& self.pull_subscribers@ == Map::<Seq<char>, u64>::empty()
        &&& self.pending_pull_source_filters@ == Seq::<UriParts>::empty()
        &&& self.pull_receive_queue_state@ == (QueueStateView {
            queues: Map::empty(),
            dropped: 0,
            rejected: 0,
            reason: None,
        })
        &&& self.zero_copy_listeners@ == (RegistryView {
            registrations: Seq::empty(),
            next_id: 0,
        })
    }

    /// A transport with the default settings.
    pub fn new() -> (transport: Self)
        ensures
            transport.is_fresh(transport.config),
            has_default_settings(transport.config),
    {
        Self::with_config(Iceoryx2PubSubConfig::default())
    }

    /// A transport with the given settings.
    pub fn with_config(config: Iceoryx2PubSubConfig) -> (transport: Self)
        ensures
            transport.is_fresh(config),
    {
        Iceoryx2PubSub {
            config,
            publishers: NamedTable::new(),
            pull_subscribers: NamedTable::new(),
            pending_pull_source_filters: PendingSourceFilters::new(),
            pull_receive_queue_state: PullReceiveQueueState::new(),
            zero_copy_listeners: ListenerRegistry::new(),
        }
    }

    /// How the queues of mismatched samples stand. The number of leases in all of them must be a
    /// machine size.
    pub fn pull_mismatch_queue_diagnostics(&self) -> (diagnostics: PullMismatchQueueDiagnostics)
        requires
            self.wf(),
            depth(self.pull_receive_queue_state@.queues) <= usize::MAX,
        ensures
            ({
                let state = self.pull_receive_queue_state@;
                &&& diagnostics.current_depth == depth(state.queues)
                &&& diagnostics.dropped_mismatches == state.dropped
                &&& diagnostics.rejected_mismatches == state.rejected
                &&& optional_text(diagnostics.last_mismatch_reason) == state.reason
            }),
    {
        self.pull_receive_queue_state.diagnostics()
    }

    /// The service that carries messages from a source to a sink, where an empty authority stands
    /// for this host.
    pub fn publish_subscribe_service_name(
        source_filter: &UUri,
        sink_filter: Option<&UUri>,
    ) -> (result: Result<String, UStatus>)
        ensures
            exists|host: Seq<char>| #[trigger]
                outcome(
                    result,
                    mapped_service_name(
                        source_filter@,
                        borrowed_parts(sink_filter),
                        MessagingPattern::PublishSubscribe,
                        host,
                    ),
                ),
            !depends_on_host(source_filter@, borrowed_parts(sink_filter)) ==> forall|
                host: Seq<char>,
            | #[trigger]
                outcome(
                    result,
                    mapped_service_name(
                        source_filter@,
                        borrowed_parts(sink_filter),
                        MessagingPattern::PublishSubscribe,
                        host,
                    ),
                ),
    {
        compute_service_name(source_filter, sink_filter, MessagingPattern::PublishSubscribe)
    }

    /// The service that carries what an exact source publishes.
    pub fn exact_source_publish_subscribe_service_name(source: &ExactUUri) -> (result: Result<
        String,
        UStatus,
    >)
        ensures
            forall|host: Seq<char>| #[trigger]
                outcome(
                    result,
                    mapped_service_name(source@, None, MessagingPattern::PublishSubscribe, host),
                ),
    {
        compute_exact_source_publish_subscribe_service_name(source)
    }

    /// The names of the services that iceoryx2 lists, or the report that it could not list them.
    pub fn discover_service_names(&self, listing: Result<Vec<DiscoveredService>, String>) -> (
    result: Result<Vec<String>, UStatus>)
        ensures
            match (result, listing) {
                (Ok(names), Ok(services)) => views(names@) == all_names(service_views(services@)),
                (Err(status), Err(error)) => is_listing_failure(status, error@),
                _ => false,
            },
    {
        match listing {
            Ok(services) => Ok(discover_service_names(&services)),
            Err(error) => Err(port_failure_to_status(PortFailure::ListServices(error))),
        }
    }

    /// The names of the listed services whose source the filter matches, where an empty authority
    /// of the filter stands for this host; or the report that iceoryx2 could not list services.
    pub fn discover_matching_service_names(
        &self,
        listing: Result<Vec<DiscoveredService>, String>,
        source_filter: &UUri,
    ) -> (result: Result<Vec<String>, UStatus>)
        ensures
            match (result, listing) {
                (Ok(names), Ok(services)) => {
                    &&& exists|host: Seq<char>|
                        views(names@) == #[trigger] matching_names(
                            service_views(services@),
                            source_filter@,
                            host,
                        )
                    &&& source_filter@.authority.len() > 0 ==> forall|host: Seq<char>|
                        views(names@) == #[trigger] matching_names(
                            service_views(services@),
                            source_filter@,
                            host,
                        )
                },
                (Err(status), Err(error)) => is_listing_failure(status, error@),
                _ => false,
            },
    {
        match listing {
            Ok(services) => Ok(discover_matching_service_names(&services, source_filter)),
            Err(error) => Err(port_failure_to_status(PortFailure::ListServices(error))),
        }
    }
}

/// Whether the settings are the default ones.
pub open spec fn has_default_settings(config: Iceoryx2PubSubConfig) -> bool {
    &&& config.publisher_initial_max_slice_len == 1
    &&& config.publisher_allocation_strategy == crate::config::AllocationStrategy::PowerOfTwo
    &&& config.pull_mismatch_queue_capacity == 64
    &&& config.pull_mismatch_queue_full_policy
        == crate::pull_queue::Iceoryx2PullMismatchQueueFullPolicy::DropOldestAndReport
    &&& config.iceoryx2_config is None
    &&& config.namespace is None
    &&& config.publisher_readiness_minimum == 0
    &&& config.publisher_readiness_timeout is None
}

/// Whether a status reports that iceoryx2 could not list services.
pub open spec fn is_listing_failure(status: UStatus, error: Seq<char>) -> bool {
    status.says(
        crate::status::UCode::Internal,
        "failed to list iceoryx2 services: "@ + error,
    )
}

impl Default for Iceoryx2PubSub {
    fn default() -> (transport: Self)
        ensures
            transport.is_fresh(transport.config),
            has_default_settings(transport.config),
    {
        Self::new()
    }
}

/// A fresh transport has no publisher, no subscriber, no source filter that was asked for, no kept
/// sample and no listener; it has lost nothing, and has the settings that it was made with.
pub proof fn fresh_transport_has_nothing(
    transport: Iceoryx2PubSub,
    config: Iceoryx2PubSubConfig,
    service_name: Seq<char>,
    source: UriParts,
    sink: Option<UriParts>,
    listener: u64,
)
    requires
        transport.is_fresh(config),
    ensures
        transport.config == config,
        !transport.publishers@.dom().contains(service_name),
        !transport.pull_subscribers@.dom().contains(service_name),
        transport.pending_pull_source_filters@.len() == 0,
        transport.pull_receive_queue_state@.queue(service_name).len() == 0,
        transport.pull_receive_queue_state@.dropped == 0,
        transport.pull_receive_queue_state@.rejected == 0,
        transport.pull_receive_queue_state@.reason is None,
        !transport.zero_copy_listeners@.has(source, sink, listener),
        transport.zero_copy_listeners@.next_id == 0,
        transport.wf(),
{
}

/// By default a publisher begins with room for one byte and doubles it, 64 mismatched samples are
/// kept for each service before the oldest goes, no namespace is set, and no subscriber is waited
/// for.
pub proof fn default_settings_wait_for_nobody(config: Iceoryx2PubSubConfig)
    requires
        has_default_settings(config),
    ensures
        config.publisher_initial_max_slice_len == 1,
        config.publisher_allocation_strategy is PowerOfTwo,
        config.pull_mismatch_queue_capacity == 64,
        config.pull_mismatch_queue_full_policy is DropOldestAndReport,
        config.iceoryx2_config is None,
        config.namespace is None,
        config.publisher_readiness_minimum == 0,
        config.publisher_readiness_timeout is None,
{
}

/// A failure to list services is an internal one, and quotes the description.
pub proof fn listing_failure_quotes_the_description(status: UStatus, error: Seq<char>)
    requires
        is_listing_failure(status, error),
    ensures
        status.code is Internal,
        status.message@ == "failed to list iceoryx2 services: "@ + error,
{
}

/// The tables, the queues and the registry of a well-formed transport are well-formed, and no source
/// filter was remembered twice.
pub proof fn well_formed_transport_has_well_formed_parts(transport: Iceoryx2PubSub)
    requires
        transport.wf(),
    ensures
        transport.publishers.wf() && transport.pull_subscribers.wf(),
        transport.pull_receive_queue_state.wf() && transport.zero_copy_listeners.wf(),
        transport.pending_pull_source_filters@.no_duplicates(),
{
}

} // verus!
