//! The factory of transports.

use crate::config::Iceoryx2PubSubConfig;
use crate::service_name_mapping::MessagingPattern;
use crate::status::{fails_with, UCode, UStatus};
use crate::utransport_pubsub::{has_default_settings, Iceoryx2PubSub};
use std::sync::Arc;
use vstd::prelude::*;

verus! {

/// Factory for iceoryx2 uProtocol transports.
///
/// Only [`MessagingPattern::PublishSubscribe`] is supported.
pub struct UTransportIceoryx2 {}

impl UTransportIceoryx2 {
    /// A transport for the given messaging pattern, with the default settings.
    pub fn build(messaging_pattern: MessagingPattern) -> (result: Result<
        Arc<Iceoryx2PubSub>,
        UStatus,
    >)
        ensures
            match result {
                Ok(transport) => messaging_pattern == MessagingPattern::PublishSubscribe
                    && transport.is_fresh(transport.config) && has_default_settings(
                    transport.config,
                ),
                Err(_) => messaging_pattern != MessagingPattern::PublishSubscribe && fails_with(
                    result,
                    UCode::Unimplemented,
                    "Unimplemented messaging pattern"@,
                ),
            },
    {
        Self::build_with_config(messaging_pattern, Iceoryx2PubSubConfig::default())
    }

    /// A transport for the given messaging pattern, with the given settings.
    pub fn build_with_config(
        messaging_pattern: MessagingPattern,
        config: Iceoryx2PubSubConfig,
    ) -> (result: Result<Arc<Iceoryx2PubSub>, UStatus>)
        ensures
            match result {
                Ok(transport) => messaging_pattern == MessagingPattern::PublishSubscribe
                    && transport.is_fresh(config),
                Err(_) => messaging_pattern != MessagingPattern::PublishSubscribe && fails_with(
                    result,
                    UCode::Unimplemented,
                    "Unimplemented messaging pattern"@,
                ),
            },
    {
        match messaging_pattern {
            MessagingPattern::PublishSubscribe => Ok(Self::build_publish_subscribe(config)),
            _ => Err(
                UStatus::fail_with_code(UCode::Unimplemented, "Unimplemented messaging pattern"),
            ),
        }
    }

    fn build_publish_subscribe(config: Iceoryx2PubSubConfig) -> (transport: Arc<Iceoryx2PubSub>)
        ensures
            transport.is_fresh(config),
    {
        Arc::new(Iceoryx2PubSub::with_config(config))
    }
}

} // verus!
