//! The route of a service: the source that sends through it, and the sink that it leads to.
//!
//! A service has one source and at most one sink. The source stands in its attributes; the sink is
//! read back from its name.

use crate::service_attributes::{normalized, normalized_option, normalized_uri};
use crate::service_name_mapping::{
    determine_message_type, encode_uuri_segments, has_no_slash, lemma_tail_is_unique,
    lemma_uri_path, mapped_service_name, message_type, resolved_authority, service_path, uri_path,
    MessagingPattern,
};
use crate::status::UCode;
use crate::text::{
    hex, hex_text_parses_back, join_segments, parse_hex_u16, parse_hex_u8, parsed_hex, same_text,
};
use crate::uuri::{borrowed_parts, borrowed_uri, optional_parts, UUri, UriParts};
use vstd::prelude::*;
use vstd::string::*;

verus! {

/// Whether the service of the given name carries what `source` sends to `sink`, where no authority
/// stands for the host.
pub open spec fn leads_to(name: Seq<char>, source: UriParts, sink: UriParts) -> bool {
    let kind = message_type(source, Some(sink), MessagingPattern::PublishSubscribe);
    kind is Some && name == service_path(source, Some(sink), kind->0, Seq::empty())
}

/// The sink that the service of the given name leads to, if it leads from `source` to a sink.
pub open spec fn service_sink(name: Seq<char>, source: UriParts) -> Option<UriParts> {
    if exists|sink: UriParts| #[trigger] leads_to(name, source, sink) {
        Some(choose|sink: UriParts| #[trigger] leads_to(name, source, sink))
    } else {
        None
    }
}

/// A service with the source that sends through it and the sink that it leads to.
#[derive(Debug)]
pub struct ServiceRoute {
    name: String,
    source: UUri,
    sink: Option<UUri>,
}

/// The parts of a route.
pub struct RouteView {
    pub name: Seq<char>,
    pub source: UriParts,
    pub sink: Option<UriParts>,
}

impl View for ServiceRoute {
    type V = RouteView;

    closed spec fn view(&self) -> RouteView {
        RouteView {
            name: self.name@,
            source: self.source@,
            sink: optional_parts(self.sink),
        }
    }
}

/// The route of the service of the given name whose source is `source`, on a host of the given
/// name.
pub open spec fn route_from(name: Seq<char>, source: UriParts, host: Seq<char>) -> RouteView {
    let resolved = normalized(source, host);
    RouteView { name, source: resolved, sink: service_sink(name, resolved) }
}

/// The views of a sequence of routes.
pub open spec fn route_views(routes: Seq<ServiceRoute>) -> Seq<RouteView> {
    routes.map_values(|route: ServiceRoute| route@)
}

/// The place of the last slash of a text, or -1 where it has none.
spec fn last_slash(text: Seq<char>) -> int
    decreases text.len(),
{
    if text.len() == 0 {
        -1
    } else if text.last() == '/' {
        text.len() - 1
    } else {
        last_slash(text.drop_last())
    }
}

/// What stands before and behind the last slash of a text.
spec fn split_at_last_slash(text: Seq<char>) -> Option<(Seq<char>, Seq<char>)> {
    let at = last_slash(text);
    if at < 0 {
        None
    } else {
        Some((text.take(at), text.skip(at + 1)))
    }
}

/// The URI whose path a text is read as: four numbers behind the last four slashes, and the
/// authority before them.
spec fn read_path(text: Seq<char>) -> Option<UriParts> {
    match split_at_last_slash(text) {
        None => None,
        Some((rest, resource)) => match split_at_last_slash(rest) {
            None => None,
            Some((rest, version)) => match split_at_last_slash(rest) {
                None => None,
                Some((rest, instance)) => match split_at_last_slash(rest) {
                    None => None,
                    Some((authority, entity_type)) => match (
                        parsed_hex(resource, 0xFFFF),
                        parsed_hex(version, 0xFF),
                        parsed_hex(instance, 0xFFFF),
                        parsed_hex(entity_type, 0xFFFF),
                    ) {
                        (Some(resource), Some(version), Some(instance), Some(entity_type)) => Some(
                            UriParts {
                                authority,
                                ue_id: (instance * 0x10000 + entity_type) as u32,
                                version: version as u8,
                                resource: resource as u16,
                            },
                        ),
                        _ => None,
                    },
                },
            },
        },
    }
}

/// The last slash of a text is a slash, and none stands behind it.
proof fn lemma_last_slash(text: Seq<char>)
    ensures
        -1 <= last_slash(text) < text.len(),
        last_slash(text) >= 0 ==> text[last_slash(text)] == '/',
        forall|i: int| last_slash(text) < i < text.len() ==> #[trigger] text[i] != '/',
    decreases text.len(),
{
    if text.len() > 0 && text.last() != '/' {
        lemma_last_slash(text.drop_last());
        assert forall|i: int| last_slash(text) < i < text.len() implies #[trigger] text[i]
            != '/' by {
            if i < text.len() - 1 {
                assert(text.drop_last()[i] == text[i]);
            }
        }
    }
}

/// A text is split where a tail without a slash was put behind a slash.
proof fn lemma_split(head: Seq<char>, tail: Seq<char>)
    requires
        has_no_slash(tail),
    ensures
        split_at_last_slash(head + "/"@ + tail) == Some((head, tail)),
{
    reveal_strlit("/");
    let text = head + "/"@ + tail;
    lemma_last_slash(text);
    assert(text[head.len() as int] == '/');
    let at = last_slash(text);
    assert(text =~= text.take(at) + "/"@ + text.skip(at + 1));
    assert forall|i: int| 0 <= i < text.skip(at + 1).len() implies #[trigger] text.skip(at + 1)[i]
        != '/' by {
        assert(text.skip(at + 1)[i] == text[at + 1 + i]);
    }
    lemma_tail_is_unique(head, tail, text.take(at), text.skip(at + 1));
}

/// The path of a URI is read as that URI.
proof fn lemma_path_reads_back(uri: UriParts)
    ensures
        read_path(uri_path(uri, Seq::empty())) == Some(uri),
{
    lemma_uri_path(uri, Seq::empty());
    let a1 = resolved_authority(uri, Seq::empty());
    let a2 = a1 + "/"@ + hex(uri.type_id());
    let a3 = a2 + "/"@ + hex(uri.instance_id());
    let a4 = a3 + "/"@ + hex(uri.version as nat);
    lemma_split(a4, hex(uri.resource as nat));
    lemma_split(a3, hex(uri.version as nat));
    lemma_split(a2, hex(uri.instance_id()));
    lemma_split(a1, hex(uri.type_id()));
    hex_text_parses_back(uri.resource as nat, 0xFFFF);
    hex_text_parses_back(uri.version as nat, 0xFF);
    hex_text_parses_back(uri.instance_id(), 0xFFFF);
    hex_text_parses_back(uri.type_id(), 0xFFFF);
    assert(a1 =~= uri.authority);
}

/// What stands before and behind the last slash of a text.
fn split_last(text: &str) -> (parts: Option<(&str, &str)>)
    ensures
        match parts {
            Some((head, tail)) => split_at_last_slash(text@) == Some((head@, tail@)),
            None => split_at_last_slash(text@) is None,
        },
{
    let len: usize = text.unicode_len();
    let mut end: usize = len;
    proof {
        assert(text@.take(end as int) =~= text@);
    }
    while end > 0
        invariant
            len == text@.len(),
            end <= len,
            last_slash(text@.take(end as int)) == last_slash(text@),
        decreases end,
    {
        proof {
            assert(text@.take(end as int).drop_last() =~= text@.take(end - 1));
        }
        if text.get_char(end - 1) == '/' {
            let head = text.substring_char(0, end - 1);
            let tail = text.substring_char(end, len);
            proof {
                assert(head@ =~= text@.take(end - 1));
                assert(tail@ =~= text@.skip(end as int));
            }
            return Some((head, tail));
        }
        end = end - 1;
    }
    None
}

/// The URI whose path a text is read as.
fn parse_path(text: &str) -> (uri: Option<UUri>)
    ensures
        optional_parts(uri) == read_path(text@),
{
    let (rest, resource_text) = split_last(text)?;
    let (rest, version_text) = split_last(rest)?;
    let (rest, instance_text) = split_last(rest)?;
    let (authority, type_text) = split_last(rest)?;
    let resource_id: u16 = parse_hex_u16(resource_text)?;
    let ue_version_major: u8 = parse_hex_u8(version_text)?;
    let instance: u16 = parse_hex_u16(instance_text)?;
    let entity_type: u16 = parse_hex_u16(type_text)?;
    Some(
        UUri {
            authority_name: authority.to_owned(),
            ue_id: instance as u32 * 0x10000 + entity_type as u32,
            ue_version_major,
            resource_id,
        },
    )
}

/// The text behind a prefix, if the text has that prefix.
fn behind<'a>(text: &'a str, prefix: &str) -> (rest: Option<&'a str>)
    ensures
        match rest {
            Some(rest) => text@ == prefix@ + rest@,
            None => forall|rest: Seq<char>| text@ != #[trigger] (prefix@ + rest),
        },
{
    let len: usize = text.unicode_len();
    let skipped: usize = prefix.unicode_len();
    if skipped <= len && same_text(text.substring_char(0, skipped), prefix) {
        let rest = text.substring_char(skipped, len);
        proof {
            assert(text@ =~= prefix@ + rest@);
        }
        Some(rest)
    } else {
        proof {
            assert forall|rest: Seq<char>| text@ != #[trigger] (prefix@ + rest) by {
                if text@ == prefix@ + rest {
                    assert(text@.subrange(0, prefix@.len() as int) =~= prefix@);
                }
            }
        }
        None
    }
}

/// What a name must begin with for its rest to be the path of a sink.
spec fn before_sink(source: UriParts) -> Seq<char> {
    if source.is_response_resource() {
        "up/"@
    } else {
        "up/"@ + uri_path(source, Seq::empty()) + "/"@
    }
}

/// A service leads to a sink whose path is the rest of its name, and to no other.
proof fn lemma_sink_is_read(name: Seq<char>, source: UriParts, sink: UriParts)
    requires
        leads_to(name, source, sink),
    ensures
        name == before_sink(source) + uri_path(sink, Seq::empty()),
        read_path(uri_path(sink, Seq::empty())) == Some(sink),
{
    lemma_path_reads_back(sink);
}

/// A service leads to one sink at most.
pub proof fn service_has_one_sink(
    name: Seq<char>,
    source: UriParts,
    sink: UriParts,
    other_sink: UriParts,
)
    requires
        leads_to(name, source, sink),
        leads_to(name, source, other_sink),
    ensures
        sink == other_sink,
{
    lemma_sink_is_read(name, source, sink);
    lemma_sink_is_read(name, source, other_sink);
    let before = before_sink(source);
    assert(uri_path(sink, Seq::empty()) =~= name.skip(before.len() as int));
    assert(uri_path(other_sink, Seq::empty()) =~= name.skip(before.len() as int));
}

/// The sink that the service of the given name leads to from `source`.
fn sink_of(name: &str, source: &UUri) -> (sink: Option<UUri>)
    ensures
        optional_parts(sink) == service_sink(name@, source@),
{
    let mut before: String = String::from_str("up/");
    if !source.is_rpc_response() {
        before.append(join_segments(&encode_uuri_segments(source, "")).as_str());
        before.append("/");
    }
    proof {
        reveal_strlit("");
        assert(""@ =~= Seq::<char>::empty());
        assert(before@ == before_sink(source@));
    }
    let rest: &str = match behind(name, before.as_str()) {
        Some(rest) => rest,
        None => {
            proof {
                assert forall|sink: UriParts| !(#[trigger] leads_to(name@, source@, sink)) by {
                    if leads_to(name@, source@, sink) {
                        lemma_sink_is_read(name@, source@, sink);
                    }
                }
            }
            return None;
        },
    };
    proof {
        assert forall|sink: UriParts| #[trigger] leads_to(name@, source@, sink) implies rest@
            == uri_path(sink, Seq::empty()) && read_path(rest@) == Some(sink) by {
            lemma_sink_is_read(name@, source@, sink);
            let skipped = before@.len() as int;
            assert(rest@ =~= name@.skip(skipped));
            assert(uri_path(sink, Seq::empty()) =~= name@.skip(skipped));
        }
    }
    let sink: UUri = parse_path(rest)?;
    if determine_message_type(source, Some(&sink), MessagingPattern::PublishSubscribe).is_ok()
        && same_text(join_segments(&encode_uuri_segments(&sink, "")).as_str(), rest) {
        proof {
            assert(leads_to(name@, source@, sink@));
            service_has_one_sink(
                name@,
                source@,
                sink@,
                choose|other: UriParts| #[trigger] leads_to(name@, source@, other),
            );
        }
        Some(sink)
    } else {
        None
    }
}

impl ServiceRoute {
    /// The route of the service of the given name whose source is `source`, where an empty
    /// authority stands for the given host.
    pub fn new(name: &str, source: &UUri, host: &str) -> (route: ServiceRoute)
        ensures
            route@ == route_from(name@, source@, host@),
    {
        let source: UUri = normalized_uri(source, host);
        let sink: Option<UUri> = sink_of(name, &source);
        ServiceRoute { name: name.to_owned(), source, sink }
    }

    /// The name of the service.
    pub fn name(&self) -> (name: &str)
        ensures
            name@ == self@.name,
    {
        self.name.as_str()
    }

    /// The source that sends through the service.
    pub fn source(&self) -> (source: &UUri)
        ensures
            source@ == self@.source,
    {
        &self.source
    }

    /// The sink that the service leads to.
    pub fn sink(&self) -> (sink: Option<&UUri>)
        ensures
            borrowed_parts(sink) == self@.sink,
    {
        borrowed_uri(&self.sink)
    }
}

/// The name of a service tells which sink it was made for, and whether it was made for one: what
/// is read from it is the sink of the messages that are sent through it.
pub proof fn name_gives_its_sink_back(
    source: UriParts,
    sink: Option<UriParts>,
    host: Seq<char>,
    name: Seq<char>,
)
    requires
        mapped_service_name(source, sink, MessagingPattern::PublishSubscribe, host) == Ok::<
            Seq<char>,
            (UCode, Seq<char>),
        >(name),
    ensures
        route_from(name, source, host).sink == normalized_option(sink, host),
{
    let resolved = normalized(source, host);
    assert(uri_path(resolved, Seq::empty()) == uri_path(source, host)) by {
        lemma_uri_path(resolved, Seq::empty());
        lemma_uri_path(source, host);
    }
    match sink {
        Some(sink) => {
            let target = normalized(sink, host);
            assert(uri_path(target, Seq::empty()) == uri_path(sink, host)) by {
                lemma_uri_path(target, Seq::empty());
                lemma_uri_path(sink, host);
            }
            assert(leads_to(name, resolved, target));
            service_has_one_sink(
                name,
                resolved,
                target,
                choose|other: UriParts| #[trigger] leads_to(name, resolved, other),
            );
        },
        None => {
            assert forall|other: UriParts| !(#[trigger] leads_to(name, resolved, other)) by {
                if leads_to(name, resolved, other) {
                    lemma_sink_is_read(name, resolved, other);
                    if resolved.is_response_resource() {
                        let path = uri_path(other, Seq::empty());
                        assert(path =~= name.skip("up/"@.len() as int));
                        assert(uri_path(resolved, Seq::empty()) =~= name.skip(
                            "up/"@.len() as int,
                        ));
                        lemma_path_reads_back(resolved);
                    } else {
                        reveal_strlit("/");
                        assert(name.len() == before_sink(resolved).len() + uri_path(
                            other,
                            Seq::empty(),
                        ).len());
                    }
                }
            }
        },
    }
}

/// The sink that is read from the name of a service is spelled out in it: behind `up/` alone where
/// the source has resource zero and the sink is a method, else behind the source, where the source
/// has another resource and the sink resource zero.
pub proof fn read_sink_is_spelled_out(name: Seq<char>, source: UriParts, sink: UriParts)
    ensures
        service_sink(name, source) == Some(sink) <==> {
            ||| source.resource == 0 && 1 <= sink.resource <= 0x7FFF && name == seq!['u', 'p', '/']
                + uri_path(sink, Seq::empty())
            ||| source.resource != 0 && sink.resource == 0 && name == seq!['u', 'p', '/']
                + uri_path(source, Seq::empty()) + seq!['/'] + uri_path(sink, Seq::empty())
        },
{
    reveal_strlit("up/");
    reveal_strlit("/");
    assert("up/"@ =~= seq!['u', 'p', '/']);
    assert("/"@ =~= seq!['/']);
    if leads_to(name, source, sink) {
        service_has_one_sink(
            name,
            source,
            sink,
            choose|other: UriParts| #[trigger] leads_to(name, source, other),
        );
    }
}

/// A route has the name that it was made with, the source with its authority resolved, and the sink
/// that the name tells for that source.
pub proof fn route_is_made_of_name_and_source(name: Seq<char>, source: UriParts, host: Seq<char>)
    ensures
        route_from(name, source, host).name == name,
        route_from(name, source, host).source.authority == if source.authority.len() == 0 {
            host
        } else {
            source.authority
        },
        route_from(name, source, host).source.ue_id == source.ue_id,
        route_from(name, source, host).source.version == source.version,
        route_from(name, source, host).source.resource == source.resource,
        route_from(name, source, host).sink == service_sink(
            name,
            route_from(name, source, host).source,
        ),
{
}

/// The views of routes are those of the routes, place by place.
pub proof fn route_views_are_the_views(routes: Seq<ServiceRoute>, i: int)
    requires
        0 <= i < routes.len(),
    ensures
        route_views(routes).len() == routes.len(),
        route_views(routes)[i] == routes[i]@,
{
}

} // verus!
