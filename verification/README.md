# up-transport-iceoryx2-rust

A uProtocol transport on iceoryx2 shared memory, with a core that is verified with Verus.

## What the transport does

A frame travels in one iceoryx2 sample. Its encoded metadata lies in the prefix of the sample and
its payload behind it, at an aligned offset. The iceoryx2 user header records only where they lie.

Each source, or pair of source and sink, has a service of its own whose name spells out the URIs.
The source of a service is also carried as immutable service attributes. A subscriber whose filter
holds wildcards reads the source back from the attributes and attaches only where the filter
matches; it keeps discovering services as they appear. The sink of a service is read back from its
name.

A sample is held against the filters by the source and the sink of its service. A pull receive keeps
a sample for another sink for later receives; a listener is not called with it. A receiver that
asked for a source once, for whatever sink, gets a subscriber to each service that the source opens
later. A round of the relay that fails calls no listener.

`Iceoryx2PubSubConfig::with_publisher_readiness(minimum, timeout)` makes a loan wait until enough
subscribers are connected, after its sample was borrowed. Missing peers end the wait with
`DeadlineExceeded`. The default minimum is zero.

`Iceoryx2PubSubConfig::with_namespace(root_path, prefix)` gives one instance a native namespace of
its own, whatever the environment of the process says. A sender tells only the receivers of its own
namespace of a new service.

A delivery that was collected for a listener is void once the registration of the listener is
removed.

## Layout

- `src/` is the verified core: service names (`service_name_mapping`), service attributes
  (`service_attributes`, `discovery`, `route`), frame placement (`uprotocolheader`, `frame`), pull receive
  (`pull`, `pull_queue`), listeners (`listeners`, `relay`), loans (`publish`), settings (`config`,
  `ports`), owned frames (`owned`) and the state of a transport (`utransport_pubsub`, `transport`).
  Public proof functions state what holds across functions.
- `app/` is ordinary Rust around the core: nodes, ports, samples, listeners, timers and locks. The
  core knows ports, samples and listeners by numbers.
- `tests/` runs the core.

What the core takes from other crates stands behind functions marked `external_body`: URI matching
and checking (`up-rust`), service names, attributes, paths and file names (`iceoryx2` and its
support crates), the host name (`hostname`) and shared bytes (`bytes`). The comment above each of
them says what is taken on trust.
