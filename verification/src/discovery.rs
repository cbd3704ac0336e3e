//! Services that iceoryx2 lists, and the choice among them.

use crate::route::{route_from, route_views, service_sink, RouteView, ServiceRoute};
use crate::service_attributes::{
    accepts_service, attributes_match_source_filter_on, filter_decides_on_published_source,
    is_decided_as_spelled, normalized, provenance, requirements, source_from_attributes,
    source_pairs, stored_attributes,
};
use crate::service_name_mapping::{
    check_name, checked_name, local_authority, resolved_authority, service_name_fault,
    service_name_fault_text, Mapped,
};
use crate::status::{UCode, UStatus};
use crate::text::views;
use crate::uuri::{accepted_authority, UUri, UriParts};
use iceoryx2::service::attribute::AttributeSet;
use vstd::prelude::*;
use vstd::string::*;

verus! {

/// A service that iceoryx2 lists: its name, and its attributes.
pub struct DiscoveredService {
    pub name: String,
    pub attributes: AttributeSet,
}

/// The parts of a listed service.
pub struct ServiceView {
    pub name: Seq<char>,
    pub attributes: Seq<(Seq<char>, Seq<char>)>,
}

impl View for DiscoveredService {
    type V = ServiceView;

    open spec fn view(&self) -> ServiceView {
        ServiceView { name: self.name@, attributes: stored_attributes(self.attributes) }
    }
}

/// The views of a sequence of services.
pub open spec fn service_views(services: Seq<DiscoveredService>) -> Seq<ServiceView> {
    services.map_values(|service: DiscoveredService| service@)
}

/// The names of the services.
pub open spec fn all_names(services: Seq<ServiceView>) -> Seq<Seq<char>> {
    services.map_values(|service: ServiceView| service.name)
}

/// The names of the services whose source the filter matches, in the order of the list.
pub open spec fn matching_names(
    services: Seq<ServiceView>,
    filter: UriParts,
    host: Seq<char>,
) -> Seq<Seq<char>>
    decreases services.len(),
{
    if services.len() == 0 {
        Seq::empty()
    } else {
        let before = matching_names(services.drop_last(), filter, host);
        let service = services.last();
        if accepts_service(service.attributes, filter, host) {
            before.push(service.name)
        } else {
            before
        }
    }
}

/// The route of a listed service, if its attributes spell out a source; on a host of the given
/// name.
pub open spec fn route_of(service: ServiceView, host: Seq<char>) -> Option<RouteView> {
    match provenance(service.attributes) {
        Some(source) => Some(route_from(service.name, source, host)),
        None => None,
    }
}

/// The routes of the services whose source the filter matches, in the order of the list.
pub open spec fn matching_routes(
    services: Seq<ServiceView>,
    filter: UriParts,
    host: Seq<char>,
) -> Seq<RouteView>
    decreases services.len(),
{
    if services.len() == 0 {
        Seq::empty()
    } else {
        let before = matching_routes(services.drop_last(), filter, host);
        let service = services.last();
        if accepts_service(service.attributes, filter, host) {
            before.push(route_of(service, host)->0)
        } else {
            before
        }
    }
}

/// The names of the services of routes.
pub open spec fn route_names(routes: Seq<RouteView>) -> Seq<Seq<char>> {
    routes.map_values(|route: RouteView| route.name)
}

impl DiscoveredService {
    /// The route of the service, if its attributes spell out a source; on a host of the given
    /// name.
    pub fn route(&self, host: &str) -> (route: Option<ServiceRoute>)
        ensures
            match route {
                Some(route) => route_of(self@, host@) == Some(route@),
                None => route_of(self@, host@) is None,
            },
    {
        match source_from_attributes(&self.attributes) {
            Some(source) => Some(ServiceRoute::new(self.name.as_str(), &source, host)),
            None => None,
        }
    }
}

/// The names of all services.
pub fn discover_service_names(services: &Vec<DiscoveredService>) -> (names: Vec<String>)
    ensures
        views(names@) == all_names(service_views(services@)),
{
    let mut names: Vec<String> = Vec::new();
    let mut i: usize = 0;
    let ghost all = all_names(service_views(services@));
    while i < services.len()
        invariant
            i <= services@.len(),
            all == all_names(service_views(services@)),
            views(names@) =~= all.take(i as int),
        decreases services@.len() - i,
    {
        let ghost before = names@;
        names.push(services[i].name.clone());
        proof {
            assert(views(names@) =~= views(before).push(services@[i as int].name@));
            assert(all.take(i + 1) =~= all.take(i as int).push(services@[i as int].name@));
        }
        i = i + 1;
    }
    proof {
        assert(all.take(i as int) =~= all);
    }
    names
}

/// The names of the services whose source the filter matches, on a host of the given name.
pub fn matching_service_names_on(
    services: &Vec<DiscoveredService>,
    source_filter: &UUri,
    host: &str,
) -> (names: Vec<String>)
    ensures
        views(names@) == matching_names(service_views(services@), source_filter@, host@),
        forall|i: int|
            0 <= i < services@.len() ==> is_decided_as_spelled(
                (#[trigger] services@[i])@.attributes,
                source_filter@,
                host@,
            ),
{
    let mut names: Vec<String> = Vec::new();
    let mut i: usize = 0;
    let ghost all = service_views(services@);
    proof {
        assert(views(names@) =~= matching_names(all.take(0), source_filter@, host@));
    }
    while i < services.len()
        invariant
            i <= services@.len(),
            all == service_views(services@),
            views(names@) == matching_names(all.take(i as int), source_filter@, host@),
            forall|j: int|
                0 <= j < i ==> is_decided_as_spelled(
                    (#[trigger] services@[j])@.attributes,
                    source_filter@,
                    host@,
                ),
        decreases services@.len() - i,
    {
        proof {
            assert(all.take(i + 1).drop_last() =~= all.take(i as int));
            assert(all.take(i + 1).last() == services@[i as int]@);
        }
        if attributes_match_source_filter_on(&services[i].attributes, source_filter, host) {
            let ghost before = names@;
            names.push(services[i].name.clone());
            proof {
                assert(views(names@) =~= views(before).push(services@[i as int].name@));
            }
        }
        i = i + 1;
    }
    proof {
        assert(all.take(i as int) =~= all);
    }
    names
}

/// The routes of the services whose source the filter matches, on a host of the given name.
pub fn matching_routes_on(
    services: &Vec<DiscoveredService>,
    source_filter: &UUri,
    host: &str,
) -> (routes: Vec<ServiceRoute>)
    ensures
        route_views(routes@) == matching_routes(service_views(services@), source_filter@, host@),
        forall|i: int|
            0 <= i < services@.len() ==> is_decided_as_spelled(
                (#[trigger] services@[i])@.attributes,
                source_filter@,
                host@,
            ),
{
    let mut routes: Vec<ServiceRoute> = Vec::new();
    let mut i: usize = 0;
    let ghost all = service_views(services@);
    proof {
        assert(route_views(routes@) =~= matching_routes(all.take(0), source_filter@, host@));
    }
    while i < services.len()
        invariant
            i <= services@.len(),
            all == service_views(services@),
            route_views(routes@) == matching_routes(all.take(i as int), source_filter@, host@),
            forall|j: int|
                0 <= j < i ==> is_decided_as_spelled(
                    (#[trigger] services@[j])@.attributes,
                    source_filter@,
                    host@,
                ),
        decreases services@.len() - i,
    {
        proof {
            assert(all.take(i + 1).drop_last() =~= all.take(i as int));
            assert(all.take(i + 1).last() == services@[i as int]@);
        }
        if attributes_match_source_filter_on(&services[i].attributes, source_filter, host) {
            match services[i].route(host) {
                Some(route) => {
                    let ghost before = routes@;
                    routes.push(route);
                    proof {
                        assert(route_views(routes@) =~= route_views(before).push(route@));
                    }
                },
                None => {},
            }
        }
        i = i + 1;
    }
    proof {
        assert(all.take(i as int) =~= all);
    }
    routes
}

/// The names of the services of routes.
pub(crate) fn names_of_routes(routes: &Vec<ServiceRoute>) -> (names: Vec<String>)
    ensures
        views(names@) == route_names(route_views(routes@)),
{
    let mut names: Vec<String> = Vec::new();
    let mut i: usize = 0;
    let ghost all = route_names(route_views(routes@));
    while i < routes.len()
        invariant
            i <= routes@.len(),
            all == route_names(route_views(routes@)),
            views(names@) =~= all.take(i as int),
        decreases routes@.len() - i,
    {
        let ghost before = names@;
        let name: String = routes[i].name().to_owned();
        names.push(name);
        proof {
            assert(views(names@) =~= views(before).push(name@));
            assert(all.take(i + 1) =~= all.take(i as int).push(name@));
        }
        i = i + 1;
    }
    proof {
        assert(all.take(i as int) =~= all);
    }
    names
}

/// The names of the services whose source the filter matches, where an empty authority of the
/// filter stands for this host.
pub fn discover_matching_service_names(
    services: &Vec<DiscoveredService>,
    source_filter: &UUri,
) -> (names: Vec<String>)
    ensures
        exists|host: Seq<char>|
            views(names@) == #[trigger] matching_names(
                service_views(services@),
                source_filter@,
                host,
            ),
        source_filter@.authority.len() > 0 ==> forall|host: Seq<char>|
            views(names@) == #[trigger] matching_names(
                service_views(services@),
                source_filter@,
                host,
            ),
{
    let host: String = local_authority();
    let names = matching_service_names_on(services, source_filter, host.as_str());
    proof {
        if source_filter@.authority.len() > 0 {
            assert forall|other: Seq<char>|
                views(names@) == #[trigger] matching_names(
                    service_views(services@),
                    source_filter@,
                    other,
                ) by {
                lemma_host_is_irrelevant(
                    service_views(services@),
                    source_filter@,
                    host@,
                    other,
                );
            }
        }
    }
    names
}

/// A filter with an authority chooses the same services on every host.
proof fn lemma_host_is_irrelevant(
    services: Seq<ServiceView>,
    filter: UriParts,
    host: Seq<char>,
    other: Seq<char>,
)
    requires
        filter.authority.len() > 0,
    ensures
        matching_names(services, filter, host) == matching_names(services, filter, other),
    decreases services.len(),
{
    if services.len() > 0 {
        lemma_host_is_irrelevant(services.drop_last(), filter, host, other);
    }
}

/// The first name of a list that is not the name of a service, with what is wrong with it; or
/// the list.
pub open spec fn checked_names(names: Seq<Seq<char>>) -> Result<
    Seq<Seq<char>>,
    (UCode, Seq<char>),
>
    decreases names.len(),
{
    if names.len() == 0 {
        Ok(names)
    } else {
        match checked_names(names.drop_last()) {
            Err(failure) => Err(failure),
            Ok(_) => match checked_discovered_name(names.last()) {
                Err(failure) => Err(failure),
                Ok(_) => Ok(names),
            },
        }
    }
}

/// `name` as the name of a discovered service, or the failure.
pub open spec fn checked_discovered_name(name: Seq<char>) -> Mapped {
    checked_name(name, UCode::Internal, "discovered invalid iceoryx2 service name "@)
}

/// Where a part of a list fails, so does the list, in the same way.
proof fn lemma_failure_stays(names: Seq<Seq<char>>, n: int)
    requires
        0 <= n <= names.len(),
        checked_names(names.take(n)) is Err,
    ensures
        checked_names(names) == checked_names(names.take(n)),
    decreases names.len() - n,
{
    if n < names.len() {
        assert(names.take(n + 1).drop_last() =~= names.take(n));
        lemma_failure_stays(names, n + 1);
    } else {
        assert(names.take(n) =~= names);
    }
}

/// The names of discovered services, each of them checked.
pub fn check_discovered_names(names: &Vec<String>) -> (result: Result<Vec<String>, UStatus>)
    ensures
        match result {
            Ok(checked) => checked_names(views(names@)) == Ok::<
                Seq<Seq<char>>,
                (UCode, Seq<char>),
            >(views(checked@)),
            Err(status) => match checked_names(views(names@)) {
                Ok(_) => false,
                Err(failure) => status.says(failure.0, failure.1),
            },
        },
{
    let mut checked: Vec<String> = Vec::new();
    let mut i: usize = 0;
    let ghost all = views(names@);
    proof {
        assert(all.take(0) =~= Seq::<Seq<char>>::empty());
        assert(views(checked@) =~= all.take(0));
    }
    while i < names.len()
        invariant
            i <= names@.len(),
            all == views(names@),
            views(checked@) == all.take(i as int),
            checked_names(all.take(i as int)) is Ok,
        decreases names@.len() - i,
    {
        proof {
            assert(all.take(i + 1).drop_last() =~= all.take(i as int));
            assert(all.take(i + 1).last() == names@[i as int]@);
        }
        match check_name(
            names[i].as_str(),
            UCode::Internal,
            "discovered invalid iceoryx2 service name ",
        ) {
            Ok(name) => {
                let ghost before = checked@;
                checked.push(name);
                proof {
                    assert(views(checked@) =~= views(before).push(name@));
                    assert(all.take(i + 1) =~= all.take(i as int).push(name@));
                }
            },
            Err(status) => {
                proof {
                    lemma_failure_stays(all, i + 1);
                }
                return Err(status);
            },
        }
        i = i + 1;
    }
    proof {
        assert(all.take(i as int) =~= all);
        lemma_checked_names_are_the_names(all);
    }
    Ok(checked)
}

/// Checking changes no name.
proof fn lemma_checked_names_are_the_names(names: Seq<Seq<char>>)
    ensures
        checked_names(names) is Ok ==> checked_names(names)->Ok_0 == names,
    decreases names.len(),
{
    if names.len() > 0 {
        lemma_checked_names_are_the_names(names.drop_last());
    }
}

/// A service is chosen by a filter only if it is listed and its source is one that the filter
/// matches; and every such service is chosen.
pub proof fn chosen_services_are_those_that_match(
    services: Seq<ServiceView>,
    filter: UriParts,
    host: Seq<char>,
    name: Seq<char>,
)
    ensures
        matching_names(services, filter, host).contains(name) <==> exists|i: int|
            0 <= i < services.len() && (#[trigger] services[i]).name == name && accepts_service(
                services[i].attributes,
                filter,
                host,
            ),
    decreases services.len(),
{
    if services.len() > 0 {
        let rest = services.drop_last();
        let before = matching_names(rest, filter, host);
        let all = matching_names(services, filter, host);
        chosen_services_are_those_that_match(rest, filter, host, name);
        let last = services.len() - 1;
        if before.contains(name) {
            let i = choose|i: int|
                0 <= i < rest.len() && (#[trigger] rest[i]).name == name && accepts_service(
                    rest[i].attributes,
                    filter,
                    host,
                );
            assert(services[i].name == name);
            let j = choose|j: int| 0 <= j < before.len() && before[j] == name;
            assert(all[j] == name);
        }
        if accepts_service(services[last].attributes, filter, host) {
            assert(all[before.len() as int] == services[last].name);
        }
        if all.contains(name) && !before.contains(name) {
            let j = choose|j: int| 0 <= j < all.len() && all[j] == name;
            if j < before.len() {
                assert(before[j] == name);
            }
            assert(services[last].name == name);
        }
        if exists|i: int|
            0 <= i < services.len() && (#[trigger] services[i]).name == name && accepts_service(
                services[i].attributes,
                filter,
                host,
            ) {
            let i = choose|i: int|
                0 <= i < services.len() && (#[trigger] services[i]).name == name
                    && accepts_service(services[i].attributes, filter, host);
            if i < last {
                assert(rest[i].name == name);
            }
        }
    }
}

/// The routes of the chosen services lead through the very services whose names are chosen.
pub proof fn routes_lead_through_the_chosen_services(
    services: Seq<ServiceView>,
    filter: UriParts,
    host: Seq<char>,
)
    ensures
        route_names(matching_routes(services, filter, host)) == matching_names(
            services,
            filter,
            host,
        ),
    decreases services.len(),
{
    let routes = matching_routes(services, filter, host);
    if services.len() > 0 {
        let before = matching_routes(services.drop_last(), filter, host);
        routes_lead_through_the_chosen_services(services.drop_last(), filter, host);
        if accepts_service(services.last().attributes, filter, host) {
            assert(route_names(routes) =~= route_names(before).push(services.last().name));
        }
    } else {
        assert(route_names(routes) =~= matching_names(services, filter, host));
    }
}

/// A listed service with the attributes of a source is found by every filter that matches the
/// source. An authority that URIs do not keep in its given form is left out.
pub proof fn published_service_is_found(
    services: Seq<ServiceView>,
    i: int,
    source: UriParts,
    filter: UriParts,
    host: Seq<char>,
)
    requires
        0 <= i < services.len(),
        requirements(services[i].attributes) == requirements(source_pairs(source, host)),
        normalized(filter, host).matches(normalized(source, host)),
    ensures
        accepted_authority(resolved_authority(source, host)) == Some(
            resolved_authority(source, host),
        ) ==> matching_names(services, filter, host).contains(services[i].name),
{
    filter_decides_on_published_source(source, host, services[i].attributes, filter);
    chosen_services_are_those_that_match(services, filter, host, services[i].name);
}

/// The views and the names of listed services are those of the services, place by place.
pub proof fn names_are_those_of_the_services(services: Seq<DiscoveredService>, i: int)
    requires
        0 <= i < services.len(),
    ensures
        service_views(services).len() == services.len(),
        service_views(services)[i].name == services[i].name@,
        service_views(services)[i].attributes == stored_attributes(services[i].attributes),
        all_names(service_views(services)).len() == services.len(),
        all_names(service_views(services))[i] == services[i].name@,
{
}

/// Services are chosen one by one, in the order of the list: of one service its name where its
/// filter accepts it, and of two lists put together what is chosen of the first and behind it what
/// is chosen of the second.
pub proof fn services_are_chosen_one_by_one(
    first: Seq<ServiceView>,
    second: Seq<ServiceView>,
    service: ServiceView,
    filter: UriParts,
    host: Seq<char>,
)
    ensures
        accepts_service(service.attributes, filter, host) ==> matching_names(
            seq![service],
            filter,
            host,
        ) == seq![service.name],
        !accepts_service(service.attributes, filter, host) ==> matching_names(
            seq![service],
            filter,
            host,
        ) == Seq::<Seq<char>>::empty(),
        matching_names(first + second, filter, host) == matching_names(first, filter, host)
            + matching_names(second, filter, host),
    decreases second.len(),
{
    reveal_with_fuel(matching_names, 2);
    assert(seq![service].drop_last() =~= Seq::<ServiceView>::empty());
    assert(matching_names(seq![service].drop_last(), filter, host) =~= Seq::<Seq<char>>::empty());
    if accepts_service(service.attributes, filter, host) {
        assert(matching_names(seq![service], filter, host) =~= seq![service.name]);
    }
    if second.len() > 0 {
        services_are_chosen_one_by_one(first, second.drop_last(), service, filter, host);
        assert((first + second).drop_last() =~= first + second.drop_last());
        assert((first + second).last() == second.last());
        assert(matching_names(first + second, filter, host) =~= matching_names(
            first,
            filter,
            host,
        ) + matching_names(second, filter, host));
    } else {
        assert(first + second =~= first);
        assert(matching_names(first + second, filter, host) =~= matching_names(
            first,
            filter,
            host,
        ) + matching_names(second, filter, host));
    }
}

/// The route of a listed service has the name of the service, the source that its attributes give,
/// resolved, and the sink that its name tells for that source.
pub proof fn route_is_that_of_the_service(service: ServiceView, host: Seq<char>)
    ensures
        route_of(service, host) is Some <==> provenance(service.attributes) is Some,
        route_of(service, host) is Some ==> {
            let route = route_of(service, host)->0;
            &&& route.name == service.name
            &&& route.source == normalized(provenance(service.attributes)->0, host)
            &&& route.sink == service_sink(service.name, route.source)
        },
{
}

/// Of the route of each chosen service the filter matches the source, and the chosen services are
/// routed one by one, in the order of the list.
pub proof fn chosen_services_are_routed_one_by_one(
    first: Seq<ServiceView>,
    second: Seq<ServiceView>,
    service: ServiceView,
    filter: UriParts,
    host: Seq<char>,
)
    ensures
        accepts_service(service.attributes, filter, host) ==> matching_routes(
            seq![service],
            filter,
            host,
        ) == seq![route_of(service, host)->0],
        !accepts_service(service.attributes, filter, host) ==> matching_routes(
            seq![service],
            filter,
            host,
        ) == Seq::<RouteView>::empty(),
        matching_routes(first + second, filter, host) == matching_routes(first, filter, host)
            + matching_routes(second, filter, host),
    decreases second.len(),
{
    reveal_with_fuel(matching_routes, 2);
    assert(seq![service].drop_last() =~= Seq::<ServiceView>::empty());
    assert(matching_routes(seq![service].drop_last(), filter, host) =~= Seq::<RouteView>::empty());
    if accepts_service(service.attributes, filter, host) {
        assert(matching_routes(seq![service], filter, host) =~= seq![route_of(service, host)->0]);
    }
    if second.len() > 0 {
        chosen_services_are_routed_one_by_one(first, second.drop_last(), service, filter, host);
        assert((first + second).drop_last() =~= first + second.drop_last());
        assert((first + second).last() == second.last());
        assert(matching_routes(first + second, filter, host) =~= matching_routes(
            first,
            filter,
            host,
        ) + matching_routes(second, filter, host));
    } else {
        assert(first + second =~= first);
        assert(matching_routes(first + second, filter, host) =~= matching_routes(
            first,
            filter,
            host,
        ) + matching_routes(second, filter, host));
    }
}

/// Names pass the check exactly if each of them does, and then they are what they were; else the
/// first that does not is reported, as an internal failure that quotes it.
pub proof fn first_bad_name_is_reported(names: Seq<Seq<char>>, i: int)
    requires
        0 <= i <= names.len(),
        forall|j: int| 0 <= j < i ==> service_name_fault(#[trigger] names[j]) is None,
        i < names.len() ==> service_name_fault(names[i]) is Some,
    ensures
        i == names.len() ==> checked_names(names) == Ok::<
            Seq<Seq<char>>,
            (UCode, Seq<char>),
        >(names),
        i < names.len() ==> checked_names(names) == Err::<
            Seq<Seq<char>>,
            (UCode, Seq<char>),
        >(
            (
                UCode::Internal,
                "discovered invalid iceoryx2 service name "@ + names[i] + ": "@
                    + service_name_fault_text(service_name_fault(names[i])->0),
            ),
        ),
    decreases names.len(),
{
    if names.len() > 0 {
        let rest = names.drop_last();
        assert forall|j: int| 0 <= j < i && j < rest.len() implies service_name_fault(
            #[trigger] rest[j],
        ) is None by {
            assert(rest[j] == names[j]);
        }
        if i < names.len() - 1 {
            first_bad_name_is_reported(rest, i);
        } else {
            first_bad_name_is_reported(rest, rest.len() as int);
        }
    }
}

} // verus!
