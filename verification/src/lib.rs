//! iceoryx2 transport core for uProtocol.
//!
//! The core is [`Iceoryx2PubSub`]. It keeps encoded frame metadata in the prefix of an iceoryx2
//! sample and limits the iceoryx2 user header to physical placement information. The source of a
//! service is carried as immutable service attributes and checked before a subscriber attaches.
//!
//! Everything that the transport decides is here and verified: service names and attributes, the
//! placement of frames in samples, the queues of pull receives, the registry of listeners, and
//! the steps of sending and receiving. Ports, samples, listeners and time belong to the program
//! around the library; they enter it as plain values and as numbers that name them.

use vstd::prelude::*;

pub mod config;
pub mod discovery;
pub mod frame;
pub mod listeners;
pub mod named_table;
pub mod owned;
pub mod ports;
pub mod publish;
pub mod pull;
pub mod pull_queue;
pub mod relay;
pub mod route;
pub mod service_attributes;
pub mod service_name_mapping;
pub mod status;
pub mod text;
pub mod transport;
pub mod uprotocolheader;
pub mod utransport_pubsub;
pub mod uuri;

pub use config::Iceoryx2PubSubConfig;
pub use frame::{Iceoryx2RxLease, Iceoryx2TxLoan, Iceoryx2UninitTxLoan};
pub use owned::{BenchmarkOwnedIceoryx2Core, Iceoryx2EncodedOwnedFrameLog, Iceoryx2OwnedCore};
pub use pull_queue::{Iceoryx2PullMismatchQueueFullPolicy, PullMismatchQueueDiagnostics};
pub use service_name_mapping::MessagingPattern;
pub use status::{UCode, UStatus};
pub use transport::UTransportIceoryx2;
pub use uprotocolheader::{Iceoryx2PayloadLayout, UProtocolHeader};
pub use utransport_pubsub::Iceoryx2PubSub;
pub use uuri::{ExactUUri, UUri};

verus! {

/// The uProtocol major version that frame headers carry.
pub const UPROTOCOL_MAJOR_VERSION: u8 = 0;

} // verus!
