//! The mapping from the source and sink of a message to the name of the iceoryx2 service that
//! carries it.

use crate::status::{UCode, UStatus};
use crate::text::{encode_hex, hex, join_segments, joined, lemma_hex_of_u16, hex_text_is_unique, views};
use crate::uuri::{borrowed_parts, ExactUUri, UUri, UriParts};
use iceoryx2::prelude::ServiceName;
use iceoryx2::service::service_name::ServiceNameError;
use vstd::prelude::*;
use vstd::string::*;
use vstd::utf8::{encode_scalar, encode_utf8};

verus! {

/// The ways in which iceoryx2 services exchange messages.
#[derive(Clone, Copy, Debug, PartialEq, Eq, Structural)]
pub enum MessagingPattern {
    PublishSubscribe,
    Event,
    RequestResponse,
    Blackboard,
}

/// The kinds of uProtocol messages.
#[derive(Clone, Copy, Debug, PartialEq, Eq, Structural)]
pub enum UMessageType {
    Publish,
    Notification,
    Request,
    Response,
}

/// Why a text is not the name of a service.
#[derive(Clone, Copy, Debug, PartialEq, Eq, Structural)]
pub enum InvalidServiceName {
    InvalidContent,
    ExceedsMaximumLength,
}

/// What a mapping gives: a text, or the code and message of the failure.
pub type Mapped = Result<Seq<char>, (UCode, Seq<char>)>;

/// Whether `result` is the text or the failure that `mapped` says.
pub open spec fn outcome(result: Result<String, UStatus>, mapped: Mapped) -> bool {
    match (result, mapped) {
        (Ok(text), Ok(expected)) => text@ == expected,
        (Err(status), Err(expected)) => status.says(expected.0, expected.1),
        _ => false,
    }
}

/// Whether every character is one that iceoryx2 stores in its names and attributes.
pub open spec fn is_storable(text: Seq<char>) -> bool {
    forall|i: int| 0 <= i < text.len() ==> 1 <= #[trigger] text[i] as int <= 127
}

/// What is wrong with a text as the name of a service, if anything.
pub open spec fn service_name_fault(name: Seq<char>) -> Option<InvalidServiceName> {
    if "iox2://"@.is_prefix_of(name) || name.len() == 0 {
        Some(InvalidServiceName::InvalidContent)
    } else if is_storable(name) {
        if name.len() > 255 {
            Some(InvalidServiceName::ExceedsMaximumLength)
        } else {
            None
        }
    } else if encode_utf8(name).len() > 255 {
        Some(InvalidServiceName::ExceedsMaximumLength)
    } else {
        Some(InvalidServiceName::InvalidContent)
    }
}

/// The text that describes a fault of a service name.
pub open spec fn service_name_fault_text(fault: InvalidServiceName) -> Seq<char> {
    match fault {
        InvalidServiceName::InvalidContent => "ServiceNameError::InvalidContent"@,
        InvalidServiceName::ExceedsMaximumLength => "ServiceNameError::ExceedsMaximumLength"@,
    }
}

/// The authority that stands for a URI: its own, or `host` where it has none.
pub open spec fn resolved_authority(uri: UriParts, host: Seq<char>) -> Seq<char> {
    if uri.authority.len() == 0 {
        host
    } else {
        uri.authority
    }
}

/// The segments that a URI contributes to a service name.
pub open spec fn uri_segments(uri: UriParts, host: Seq<char>) -> Seq<Seq<char>> {
    seq![
        resolved_authority(uri, host),
        hex(uri.type_id()),
        hex(uri.instance_id()),
        hex(uri.version as nat),
        hex(uri.resource as nat),
    ]
}

/// The path that a URI contributes to a service name.
pub open spec fn uri_path(uri: UriParts, host: Seq<char>) -> Seq<char> {
    joined(uri_segments(uri, host), "/"@)
}

/// The kind of message that goes from `source` to `sink`, if there is one.
pub open spec fn message_type(
    source: UriParts,
    sink: Option<UriParts>,
    pattern: MessagingPattern,
) -> Option<UMessageType> {
    if pattern != MessagingPattern::PublishSubscribe {
        None
    } else {
        match sink {
            Some(sink) => if source.is_response_resource() && sink.is_rpc_method() {
                Some(UMessageType::Request)
            } else if source.is_rpc_method() && sink.is_response_resource() {
                Some(UMessageType::Response)
            } else if source.is_event() && sink.is_response_resource() {
                Some(UMessageType::Notification)
            } else {
                None
            },
            None => if source.authority.len() > 0 {
                Some(UMessageType::Publish)
            } else {
                None
            },
        }
    }
}

/// The message of the failure to find a kind of message.
pub open spec fn no_message_type() -> Seq<char> {
    "could not determine a valid UMessageType from the provided UUri(s)"@
}

/// The path of the service for a message from `source` to `sink`.
pub open spec fn service_path(
    source: UriParts,
    sink: Option<UriParts>,
    kind: UMessageType,
    host: Seq<char>,
) -> Seq<char> {
    match kind {
        UMessageType::Publish => "up/"@ + uri_path(source, host),
        UMessageType::Request => "up/"@ + uri_path(sink->0, host),
        UMessageType::Response | UMessageType::Notification => "up/"@ + uri_path(source, host)
            + "/"@ + uri_path(sink->0, host),
    }
}

/// `name` as the name of a service, or the failure that starts with `complaint`.
pub open spec fn checked_name(name: Seq<char>, code: UCode, complaint: Seq<char>) -> Mapped {
    match service_name_fault(name) {
        None => Ok(name),
        Some(fault) => Err((code, complaint + name + ": "@ + service_name_fault_text(fault))),
    }
}

/// The name of the service for a message from `source` to `sink`, on a host of the given name.
pub open spec fn mapped_service_name(
    source: UriParts,
    sink: Option<UriParts>,
    pattern: MessagingPattern,
    host: Seq<char>,
) -> Mapped {
    match message_type(source, sink, pattern) {
        None => Err((UCode::InvalidArgument, no_message_type())),
        Some(kind) => checked_name(
            service_path(source, sink, kind, host),
            UCode::InvalidArgument,
            "invalid iceoryx2 service name "@,
        ),
    }
}

/// Whether a name depends on the host: an authority is empty.
pub open spec fn depends_on_host(source: UriParts, sink: Option<UriParts>) -> bool {
    source.authority.len() == 0 || (sink is Some && sink->0.authority.len() == 0)
}

/// Calls `hostname::get` and keeps the name if it is Unicode. It depends on the machine, so
/// nothing is claimed of it.
#[verifier::external_body]
fn system_hostname() -> (name: Option<String>) {
    hostname::get().ok().and_then(|name| name.into_string().ok())
}

/// Calls `iceoryx2::prelude::ServiceName::new`: it rejects names that are empty or begin with
/// `iox2://`, then names of more than 255 bytes, then names with a character outside one to
/// 127, and keeps every other name as it is. A storable character takes one byte.
#[verifier::external_body]
fn native_service_name(name: &str) -> (result: Result<String, InvalidServiceName>)
    ensures
        match result {
            Ok(stored) => service_name_fault(name@) is None && stored@ == name@,
            Err(fault) => service_name_fault(name@) == Some(fault),
        },
{
    match ServiceName::new(name) {
        Ok(stored) => Ok(stored.as_str().to_owned()),
        Err(ServiceNameError::InvalidContent) => Err(InvalidServiceName::InvalidContent),
        Err(ServiceNameError::ExceedsMaximumLength) => Err(
            InvalidServiceName::ExceedsMaximumLength,
        ),
    }
}

/// The text that describes `fault`.
fn describe_service_name_fault(fault: InvalidServiceName) -> (text: &'static str)
    ensures
        text@ == service_name_fault_text(fault),
{
    match fault {
        InvalidServiceName::InvalidContent => "ServiceNameError::InvalidContent",
        InvalidServiceName::ExceedsMaximumLength => "ServiceNameError::ExceedsMaximumLength",
    }
}

/// `name` as the name of a service, or the failure that starts with `complaint`.
pub(crate) fn check_name(name: &str, code: UCode, complaint: &str) -> (result: Result<
    String,
    UStatus,
>)
    ensures
        outcome(result, checked_name(name@, code, complaint@)),
{
    match native_service_name(name) {
        Ok(stored) => Ok(stored),
        Err(fault) => {
            let message: String = String::from_str(complaint).concat(name).concat(": ").concat(
                describe_service_name_fault(fault),
            );
            Err(UStatus { code, message })
        },
    }
}

/// The authority for a host whose name is `hostname`, if it is known.
pub fn host_authority(hostname: Option<String>) -> (authority: String)
    ensures
        authority@ == match hostname {
            Some(name) => name@,
            None => "unknown"@,
        },
{
    match hostname {
        Some(name) => name,
        None => String::from_str("unknown"),
    }
}

/// The authority of this host. It depends on the machine.
pub fn local_authority() -> (authority: String) {
    host_authority(system_hostname())
}

/// The authority that stands for `uri` on a host of the given name.
pub fn authority_name_on(uri: &UUri, host: &str) -> (authority: String)
    ensures
        authority@ == resolved_authority(uri@, host@),
{
    if uri.has_empty_authority() {
        String::from_str(host)
    } else {
        String::from_str(uri.authority_name())
    }
}

/// The authority that stands for `source_uuri` on this host.
pub fn get_authority_name(source_uuri: &UUri) -> (authority: String)
    ensures
        source_uuri@.authority.len() > 0 ==> authority@ == source_uuri@.authority,
{
    authority_name_on(source_uuri, local_authority().as_str())
}

/// The segments that a URI contributes to a service name.
pub(crate) fn encode_uuri_segments(uuri: &UUri, host: &str) -> (segments: Vec<String>)
    ensures
        views(segments@) == uri_segments(uuri@, host@),
{
    let segments = vec![
        authority_name_on(uuri, host),
        encode_hex(uuri.uentity_type_id() as u32),
        encode_hex(uuri.uentity_instance_id() as u32),
        encode_hex(uuri.uentity_major_version() as u32),
        encode_hex(uuri.resource_id() as u32),
    ];
    proof {
        assert(views(segments@) =~= uri_segments(uuri@, host@));
    }
    segments
}

/// The kind of message that goes from `source` to `sink`.
pub(crate) fn determine_message_type(
    source: &UUri,
    sink: Option<&UUri>,
    messaging_pattern: MessagingPattern,
) -> (result: Result<UMessageType, UStatus>)
    ensures
        match result {
            Ok(kind) => message_type(source@, borrowed_parts(sink), messaging_pattern) == Some(
                kind,
            ),
            Err(status) => message_type(source@, borrowed_parts(sink), messaging_pattern) is None
                && status.says(UCode::InvalidArgument, no_message_type()),
        },
{
    if messaging_pattern == MessagingPattern::PublishSubscribe {
        match sink {
            Some(sink) => {
                if source.is_rpc_response() && sink.is_rpc_method() {
                    return Ok(UMessageType::Request);
                }
                if source.is_rpc_method() && sink.is_rpc_response() {
                    return Ok(UMessageType::Response);
                }
                if source.is_event() && sink.is_notification_destination() {
                    return Ok(UMessageType::Notification);
                }
            },
            None => {
                if !source.has_empty_authority() {
                    return Ok(UMessageType::Publish);
                }
            },
        }
    }
    Err(
        UStatus::fail_with_code(
            UCode::InvalidArgument,
            "could not determine a valid UMessageType from the provided UUri(s)",
        ),
    )
}

/// The name of the service for a message from `source` to `sink`, on a host of the given name.
pub fn compute_service_name_on(
    source: &UUri,
    sink: Option<&UUri>,
    messaging_pattern: MessagingPattern,
    host: &str,
) -> (result: Result<String, UStatus>)
    ensures
        outcome(
            result,
            mapped_service_name(source@, borrowed_parts(sink), messaging_pattern, host@),
        ),
{
    let kind = determine_message_type(source, sink, messaging_pattern)?;
    let mut name: String = String::from_str("up/");
    match kind {
        UMessageType::Request => {
            let Some(sink) = sink else {
                return Err(
                    UStatus::fail_with_code(
                        UCode::InvalidArgument,
                        "sink required for request service name",
                    ),
                );
            };
            name.append(join_segments(&encode_uuri_segments(sink, host)).as_str());
        },
        UMessageType::Response | UMessageType::Notification => {
            let Some(sink) = sink else {
                return Err(
                    UStatus::fail_with_code(
                        UCode::InvalidArgument,
                        "sink required for response or notification service name",
                    ),
                );
            };
            name.append(join_segments(&encode_uuri_segments(source, host)).as_str());
            name.append("/");
            name.append(join_segments(&encode_uuri_segments(sink, host)).as_str());
        },
        UMessageType::Publish => {
            name.append(join_segments(&encode_uuri_segments(source, host)).as_str());
        },
    }
    check_name(name.as_str(), UCode::InvalidArgument, "invalid iceoryx2 service name ")
}

/// The name of the service for a message from `source` to `sink`, where an empty authority stands
/// for this host.
pub fn compute_service_name(
    source: &UUri,
    sink: Option<&UUri>,
    messaging_pattern: MessagingPattern,
) -> (result: Result<String, UStatus>)
    ensures
        exists|host: Seq<char>| #[trigger]
            outcome(
                result,
                mapped_service_name(source@, borrowed_parts(sink), messaging_pattern, host),
            ),
        !depends_on_host(source@, borrowed_parts(sink)) ==> forall|host: Seq<char>| #[trigger]
            outcome(
                result,
                mapped_service_name(source@, borrowed_parts(sink), messaging_pattern, host),
            ),
{
    let host: String = local_authority();
    let result = compute_service_name_on(source, sink, messaging_pattern, host.as_str());
    proof {
        if !depends_on_host(source@, borrowed_parts(sink)) {
            assert forall|other: Seq<char>| #[trigger]
                outcome(
                    result,
                    mapped_service_name(source@, borrowed_parts(sink), messaging_pattern, other),
                ) by {
                host_is_irrelevant_beside_authorities(
                    source@,
                    borrowed_parts(sink),
                    messaging_pattern,
                    host@,
                    other,
                );
            }
        }
    }
    result
}

/// The name of the service that carries what an exact source publishes.
pub fn compute_exact_source_publish_subscribe_service_name(source: &ExactUUri) -> (result: Result<
    String,
    UStatus,
>)
    ensures
        forall|host: Seq<char>| #[trigger]
            outcome(
                result,
                mapped_service_name(source@, None, MessagingPattern::PublishSubscribe, host),
            ),
{
    let result = compute_service_name(
        source.as_uuri(),
        None,
        MessagingPattern::PublishSubscribe,
    );
    result
}

/// Where both authorities are given, the name of the service is the same on every host.
pub proof fn host_is_irrelevant_beside_authorities(
    source: UriParts,
    sink: Option<UriParts>,
    pattern: MessagingPattern,
    host: Seq<char>,
    other_host: Seq<char>,
)
    requires
        !depends_on_host(source, sink),
    ensures
        mapped_service_name(source, sink, pattern, host) == mapped_service_name(
            source,
            sink,
            pattern,
            other_host,
        ),
{
}

/// Whether a text holds no slash.
pub open spec fn has_no_slash(text: Seq<char>) -> bool {
    forall|i: int| 0 <= i < text.len() ==> #[trigger] text[i] != '/'
}

/// Behind its last slash a text has one tail only.
pub(crate) proof fn lemma_tail_is_unique(a: Seq<char>, x: Seq<char>, b: Seq<char>, y: Seq<char>)
    requires
        a + "/"@ + x == b + "/"@ + y,
        has_no_slash(x),
        has_no_slash(y),
    ensures
        a == b,
        x == y,
{
    reveal_strlit("/");
    let whole = a + "/"@ + x;
    let other = b + "/"@ + y;
    assert(whole.len() == a.len() + 1 + x.len());
    assert(other.len() == b.len() + 1 + y.len());
    if a.len() < b.len() {
        assert(whole[b.len() as int] == x[b.len() - a.len() - 1]);
        assert(other[b.len() as int] == '/');
    }
    if b.len() < a.len() {
        assert(other[a.len() as int] == y[a.len() - b.len() - 1]);
        assert(whole[a.len() as int] == '/');
    }
    assert(a =~= whole.subrange(0, a.len() as int));
    assert(b =~= other.subrange(0, b.len() as int));
    assert(x =~= whole.skip(a.len() as int + 1));
    assert(y =~= other.skip(b.len() as int + 1));
}

/// Behind its last slash a text with something put before it has one tail only.
proof fn lemma_split_last(
    before: Seq<char>,
    a: Seq<char>,
    x: Seq<char>,
    other_before: Seq<char>,
    b: Seq<char>,
    y: Seq<char>,
)
    requires
        before + (a + "/"@ + x) == other_before + (b + "/"@ + y),
        has_no_slash(x),
        has_no_slash(y),
    ensures
        before + a == other_before + b,
        x == y,
{
    assert(before + (a + "/"@ + x) =~= (before + a) + "/"@ + x);
    assert(other_before + (b + "/"@ + y) =~= (other_before + b) + "/"@ + y);
    lemma_tail_is_unique(before + a, x, other_before + b, y);
}

/// The path of a URI, spelled out.
pub(crate) proof fn lemma_uri_path(uri: UriParts, host: Seq<char>)
    ensures
        uri_path(uri, host) == resolved_authority(uri, host) + "/"@ + hex(uri.type_id()) + "/"@
            + hex(uri.instance_id()) + "/"@ + hex(uri.version as nat) + "/"@ + hex(
            uri.resource as nat,
        ),
        has_no_slash(hex(uri.type_id())),
        has_no_slash(hex(uri.instance_id())),
        has_no_slash(hex(uri.version as nat)),
        has_no_slash(hex(uri.resource as nat)),
{
    lemma_hex_of_u16(uri.type_id());
    lemma_hex_of_u16(uri.instance_id());
    lemma_hex_of_u16(uri.version as nat);
    lemma_hex_of_u16(uri.resource as nat);
    let segments = uri_segments(uri, host);
    reveal_with_fuel(joined, 6);
    assert(segments.drop_last() =~= segments.take(4));
    assert(segments.take(4).drop_last() =~= segments.take(3));
    assert(segments.take(3).drop_last() =~= segments.take(2));
    assert(segments.take(2).drop_last() =~= segments.take(1));
}

/// Behind a common prefix, the path of a URI determines what precedes it, and all of the URI but
/// for how its authority was found.
proof fn lemma_path_is_unique(
    before: Seq<char>,
    a: UriParts,
    other_before: Seq<char>,
    b: UriParts,
    host: Seq<char>,
)
    requires
        before + uri_path(a, host) == other_before + uri_path(b, host),
    ensures
        before + resolved_authority(a, host) == other_before + resolved_authority(b, host),
        a.ue_id == b.ue_id,
        a.version == b.version,
        a.resource == b.resource,
{
    lemma_uri_path(a, host);
    lemma_uri_path(b, host);
    let a1 = resolved_authority(a, host);
    let a2 = a1 + "/"@ + hex(a.type_id());
    let a3 = a2 + "/"@ + hex(a.instance_id());
    let a4 = a3 + "/"@ + hex(a.version as nat);
    let b1 = resolved_authority(b, host);
    let b2 = b1 + "/"@ + hex(b.type_id());
    let b3 = b2 + "/"@ + hex(b.instance_id());
    let b4 = b3 + "/"@ + hex(b.version as nat);
    lemma_split_last(before, a4, hex(a.resource as nat), other_before, b4, hex(b.resource as nat));
    lemma_split_last(before, a3, hex(a.version as nat), other_before, b3, hex(b.version as nat));
    lemma_split_last(before, a2, hex(a.instance_id()), other_before, b2, hex(b.instance_id()));
    lemma_split_last(before, a1, hex(a.type_id()), other_before, b1, hex(b.type_id()));
    hex_text_is_unique(a.resource as nat, b.resource as nat);
    hex_text_is_unique(a.version as nat, b.version as nat);
    hex_text_is_unique(a.instance_id(), b.instance_id());
    hex_text_is_unique(a.type_id(), b.type_id());
}

/// Two sources that publish under the same service name are the same source.
pub proof fn published_name_determines_source(a: UriParts, b: UriParts, host: Seq<char>)
    requires
        mapped_service_name(a, None, MessagingPattern::PublishSubscribe, host) is Ok,
        mapped_service_name(a, None, MessagingPattern::PublishSubscribe, host)
            == mapped_service_name(b, None, MessagingPattern::PublishSubscribe, host),
    ensures
        a == b,
{
    lemma_path_is_unique("up/"@, a, "up/"@, b, host);
    let up = "up/"@;
    assert(a.authority =~= (up + a.authority).skip(up.len() as int));
    assert(b.authority =~= (up + b.authority).skip(up.len() as int));
}

/// A request goes by the name that its sink alone determines: the source has no part in it.
pub proof fn request_name_is_the_sinks(
    source: UriParts,
    other_source: UriParts,
    sink: UriParts,
    host: Seq<char>,
)
    requires
        message_type(source, Some(sink), MessagingPattern::PublishSubscribe) == Some(
            UMessageType::Request,
        ),
        message_type(other_source, Some(sink), MessagingPattern::PublishSubscribe) == Some(
            UMessageType::Request,
        ),
    ensures
        mapped_service_name(source, Some(sink), MessagingPattern::PublishSubscribe, host)
            == mapped_service_name(
            other_source,
            Some(sink),
            MessagingPattern::PublishSubscribe,
            host,
        ),
{
}

/// Two responses or notifications that go by the same service name come from the same source and
/// go to the same sink, where all four authorities are given and those of the sinks hold no slash.
pub proof fn directed_name_determines_source_and_sink(
    source: UriParts,
    sink: UriParts,
    other_source: UriParts,
    other_sink: UriParts,
    host: Seq<char>,
)
    requires
        !source.is_response_resource(),
        !other_source.is_response_resource(),
        !depends_on_host(source, Some(sink)),
        !depends_on_host(other_source, Some(other_sink)),
        has_no_slash(sink.authority),
        has_no_slash(other_sink.authority),
        mapped_service_name(source, Some(sink), MessagingPattern::PublishSubscribe, host) is Ok,
        mapped_service_name(source, Some(sink), MessagingPattern::PublishSubscribe, host)
            == mapped_service_name(
            other_source,
            Some(other_sink),
            MessagingPattern::PublishSubscribe,
            host,
        ),
    ensures
        source == other_source,
        sink == other_sink,
{
    let up = "up/"@;
    let before = up + uri_path(source, host);
    let other_before = up + uri_path(other_source, host);
    lemma_path_is_unique(before + "/"@, sink, other_before + "/"@, other_sink, host);
    lemma_tail_is_unique(before, sink.authority, other_before, other_sink.authority);
    lemma_path_is_unique(up, source, up, other_source, host);
    assert(source.authority =~= (up + source.authority).skip(up.len() as int));
    assert(other_source.authority =~= (up + other_source.authority).skip(up.len() as int));
}

/// An authority that is given stands for itself, and an empty one for the host.
pub proof fn empty_authority_is_the_hosts(uri: UriParts, host: Seq<char>)
    ensures
        uri.authority.len() == 0 ==> resolved_authority(uri, host) == host,
        uri.authority.len() > 0 ==> resolved_authority(uri, host) == uri.authority,
        depends_on_host(uri, None) <==> uri.authority.len() == 0,
        forall|sink: UriParts| #[trigger]
            depends_on_host(uri, Some(sink)) <==> uri.authority.len() == 0
                || sink.authority.len() == 0,
{
}

/// The path of a URI spells out its authority and, in hexadecimal, the lower half of its entity
/// identifier, the upper half, the version and the resource, in this order and with slashes between.
pub proof fn path_spells_out_the_uri(uri: UriParts, host: Seq<char>)
    ensures
        uri_path(uri, host) == (if uri.authority.len() == 0 {
            host
        } else {
            uri.authority
        }) + seq!['/'] + hex((uri.ue_id as int % 0x10000) as nat) + seq!['/'] + hex(
            (uri.ue_id as int / 0x10000) as nat,
        ) + seq!['/'] + hex(uri.version as nat) + seq!['/'] + hex(uri.resource as nat),
{
    lemma_uri_path(uri, host);
    reveal_strlit("/");
    assert("/"@ =~= seq!['/']);
}

/// The name of a service spells out, behind `up/`, the source of what is published; the method that
/// is requested; and of what is responded or notified the source and, behind a slash, the sink.
pub proof fn name_spells_out_source_and_sink(
    source: UriParts,
    sink: Option<UriParts>,
    pattern: MessagingPattern,
    host: Seq<char>,
    name: Seq<char>,
)
    requires
        mapped_service_name(source, sink, pattern, host) == Ok::<Seq<char>, (UCode, Seq<char>)>(
            name,
        ),
    ensures
        sink is None ==> name == seq!['u', 'p', '/'] + uri_path(source, host),
        sink is Some && source.resource == 0 ==> name == seq!['u', 'p', '/'] + uri_path(
            sink->0,
            host,
        ),
        sink is Some && source.resource != 0 ==> name == seq!['u', 'p', '/'] + uri_path(
            source,
            host,
        ) + seq!['/'] + uri_path(sink->0, host),
{
    reveal_strlit("up/");
    reveal_strlit("/");
    assert("up/"@ =~= seq!['u', 'p', '/']);
    assert("/"@ =~= seq!['/']);
}

/// Messages are of a kind exactly in these four cases: without a sink, from a source with an
/// authority; from resource zero to a method; from a method to resource zero; and from an event to
/// resource zero. Only publish-subscribe services carry them.
pub proof fn messages_are_of_four_kinds(
    source: UriParts,
    sink: Option<UriParts>,
    pattern: MessagingPattern,
)
    ensures
        message_type(source, sink, pattern) == Some(UMessageType::Publish) <==> pattern
            == MessagingPattern::PublishSubscribe && sink is None && source.authority.len() > 0,
        message_type(source, sink, pattern) == Some(UMessageType::Request) <==> pattern
            == MessagingPattern::PublishSubscribe && sink is Some && source.resource == 0 && 1
            <= sink->0.resource <= 0x7FFF,
        message_type(source, sink, pattern) == Some(UMessageType::Response) <==> pattern
            == MessagingPattern::PublishSubscribe && sink is Some && 1 <= source.resource <= 0x7FFF
            && sink->0.resource == 0,
        message_type(source, sink, pattern) == Some(UMessageType::Notification) <==> pattern
            == MessagingPattern::PublishSubscribe && sink is Some && 0x8000 <= source.resource
            && sink->0.resource == 0,
{
}

/// A message has a service exactly if it is of one of the four kinds, and the text that spells out
/// its URIs has at most 255 characters, each of them from one to 127.
pub proof fn message_has_a_service_exactly_if(
    source: UriParts,
    sink: Option<UriParts>,
    pattern: MessagingPattern,
    host: Seq<char>,
    text: Seq<char>,
)
    requires
        sink is None ==> text == seq!['u', 'p', '/'] + uri_path(source, host),
        sink is Some && source.resource == 0 ==> text == seq!['u', 'p', '/'] + uri_path(
            sink->0,
            host,
        ),
        sink is Some && source.resource != 0 ==> text == seq!['u', 'p', '/'] + uri_path(
            source,
            host,
        ) + seq!['/'] + uri_path(sink->0, host),
    ensures
        mapped_service_name(source, sink, pattern, host) is Ok <==> {
            &&& pattern == MessagingPattern::PublishSubscribe
            &&& sink is None ==> source.authority.len() > 0
            &&& sink is Some && source.resource == 0 ==> 1 <= sink->0.resource <= 0x7FFF
            &&& sink is Some && source.resource != 0 ==> sink->0.resource == 0
            &&& text.len() <= 255
            &&& forall|i: int| 0 <= i < text.len() ==> 1 <= #[trigger] text[i] as int <= 127
        },
        mapped_service_name(source, sink, pattern, host) is Ok ==> mapped_service_name(
            source,
            sink,
            pattern,
            host,
        )->Ok_0 == text,
{
    reveal_strlit("up/");
    reveal_strlit("/");
    reveal_strlit("iox2://");
    assert("up/"@ =~= seq!['u', 'p', '/']);
    assert("/"@ =~= seq!['/']);
    assert(text[0] == 'u');
    assert("iox2://"@[0] == 'i');
    assert(!"iox2://"@.is_prefix_of(text));
    match message_type(source, sink, pattern) {
        Some(kind) => {
            assert(service_path(source, sink, kind, host) == text);
        },
        None => {},
    }
}

/// A text takes at least one byte for each of its characters.
proof fn lemma_utf8_is_no_shorter(text: Seq<char>)
    ensures
        encode_utf8(text).len() >= text.len(),
    decreases text.len(),
{
    if text.len() > 0 {
        lemma_utf8_is_no_shorter(text.drop_first());
        assert(encode_scalar(text[0] as u32).len() >= 1);
    }
}

/// What has no service fails as an invalid argument: with one and the same message where the
/// message is of no kind, else with a message that quotes the text that would be the name, and says
/// whether it takes more than 255 bytes.
pub proof fn message_without_service_is_an_invalid_argument(
    source: UriParts,
    sink: Option<UriParts>,
    pattern: MessagingPattern,
    host: Seq<char>,
)
    requires
        mapped_service_name(source, sink, pattern, host) is Err,
    ensures
        ({
            let failure = mapped_service_name(source, sink, pattern, host)->Err_0;
            let text = match sink {
                None => "up/"@ + uri_path(source, host),
                Some(sink) => if source.resource == 0 {
                    "up/"@ + uri_path(sink, host)
                } else {
                    "up/"@ + uri_path(source, host) + "/"@ + uri_path(sink, host)
                },
            };
            &&& failure.0 == UCode::InvalidArgument
            &&& failure.1 == if message_type(source, sink, pattern) is None {
                "could not determine a valid UMessageType from the provided UUri(s)"@
            } else if encode_utf8(text).len() > 255 {
                "invalid iceoryx2 service name "@ + text + ": "@
                    + "ServiceNameError::ExceedsMaximumLength"@
            } else {
                "invalid iceoryx2 service name "@ + text + ": "@
                    + "ServiceNameError::InvalidContent"@
            }
        }),
{
    reveal_strlit("up/");
    reveal_strlit("iox2://");
    let text = match sink {
        None => "up/"@ + uri_path(source, host),
        Some(sink) => if source.resource == 0 {
            "up/"@ + uri_path(sink, host)
        } else {
            "up/"@ + uri_path(source, host) + "/"@ + uri_path(sink, host)
        },
    };
    assert(text[0] == 'u');
    assert("iox2://"@[0] == 'i');
    assert(!"iox2://"@.is_prefix_of(text));
    lemma_utf8_is_no_shorter(text);
}

/// What a mapping gives is what its result shows: the text of a success, and the code and the
/// message of a failure.
pub proof fn outcome_is_the_mapped_one(result: Result<String, UStatus>, mapped: Mapped)
    requires
        outcome(result, mapped),
    ensures
        result is Ok <==> mapped is Ok,
        result is Ok ==> result->Ok_0@ == mapped->Ok_0,
        result is Err ==> result->Err_0.code == mapped->Err_0.0 && result->Err_0.message@
            == mapped->Err_0.1,
{
}

} // verus!
