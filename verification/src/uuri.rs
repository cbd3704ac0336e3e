//! uProtocol URIs, and patterns of them.

use vstd::prelude::*;
use vstd::string::*;

verus! {

/// A uProtocol URI: an authority, an entity identifier (instance in the upper half, type in the
/// lower half), a major version and a resource identifier.
///
/// An authority `*` and the largest value of each number are wildcards, so the same type serves
/// as a pattern that other URIs are matched against.
#[derive(Debug)]
pub struct UUri {
    pub authority_name: String,
    pub ue_id: u32,
    pub ue_version_major: u8,
    pub resource_id: u16,
}

/// The parts of a URI.
#[verifier::ext_equal]
pub struct UriParts {
    pub authority: Seq<char>,
    pub ue_id: u32,
    pub version: u8,
    pub resource: u16,
}

/// Why a URI is not accepted.
#[derive(Clone, Copy, Debug, PartialEq, Eq, Structural)]
pub enum UUriError {
    /// The authority is not a valid uProtocol authority.
    InvalidAuthority,
    /// A part of the URI is a wildcard.
    Wildcard,
}

/// A URI without wildcards.
#[derive(Debug)]
pub struct ExactUUri {
    uri: UUri,
}

impl View for UUri {
    type V = UriParts;

    open spec fn view(&self) -> UriParts {
        UriParts {
            authority: self.authority_name@,
            ue_id: self.ue_id,
            version: self.ue_version_major,
            resource: self.resource_id,
        }
    }
}

impl View for ExactUUri {
    type V = UriParts;

    closed spec fn view(&self) -> UriParts {
        self.uri@
    }
}

/// The parts of an optional URI.
pub open spec fn optional_parts(uri: Option<UUri>) -> Option<UriParts> {
    match uri {
        Some(uri) => Some(uri@),
        None => None,
    }
}

/// The parts of an optional borrowed URI.
pub open spec fn borrowed_parts(uri: Option<&UUri>) -> Option<UriParts> {
    match uri {
        Some(uri) => Some(uri@),
        None => None,
    }
}

impl UriParts {
    /// The entity type: the lower half of the entity identifier.
    pub open spec fn type_id(self) -> nat {
        (self.ue_id as int % 0x10000) as nat
    }

    /// The entity instance: the upper half of the entity identifier.
    pub open spec fn instance_id(self) -> nat {
        (self.ue_id as int / 0x10000) as nat
    }

    /// Whether a part of the URI is a wildcard.
    pub open spec fn has_wildcard(self) -> bool {
        ||| self.authority == "*"@
        ||| self.instance_id() == 0xFFFF
        ||| self.type_id() == 0xFFFF
        ||| self.version == 0xFF
        ||| self.resource == 0xFFFF
    }

    /// Whether this pattern matches `candidate`: each part is a wildcard or the same.
    pub open spec fn matches(self, candidate: UriParts) -> bool {
        &&& self.authority == "*"@ || self.authority == candidate.authority
        &&& self.type_id() == 0xFFFF || self.type_id() == candidate.type_id()
        &&& self.instance_id() == 0xFFFF || self.instance_id() == candidate.instance_id()
        &&& self.version == 0xFF || self.version == candidate.version
        &&& self.resource == 0xFFFF || self.resource == candidate.resource
    }

    /// Whether the resource is an RPC method.
    pub open spec fn is_rpc_method(self) -> bool {
        0 < self.resource < 0x8000
    }

    /// Whether the resource is the one that RPC responses and notifications are sent to.
    pub open spec fn is_response_resource(self) -> bool {
        self.resource == 0
    }

    /// Whether the resource is an event.
    pub open spec fn is_event(self) -> bool {
        self.resource >= 0x8000
    }
}

/// The URI that matches every other one.
pub open spec fn any_parts() -> UriParts {
    UriParts { authority: "*"@, ue_id: 0xFFFF_FFFF, version: 0xFF, resource: 0xFFFF }
}

/// The authority that `up_rust::UUri::try_from_parts` stores for a given authority text, if it
/// accepts that text.
pub uninterp spec fn accepted_authority(authority: Seq<char>) -> Option<Seq<char>>;

/// Whether a character may stand in a plain authority.
pub open spec fn is_plain_char(c: char) -> bool {
    'a' <= c <= 'z' || '0' <= c <= '9' || c == '-' || c == '.' || c == '_' || c == '~'
}

/// Whether a text is a plain authority: a name of at most 128 plain characters that is not made of
/// digits and dots alone, as a numeric address is.
pub open spec fn is_plain_authority(authority: Seq<char>) -> bool {
    &&& authority.len() <= 128
    &&& forall|i: int| 0 <= i < authority.len() ==> is_plain_char(#[trigger] authority[i])
    &&& exists|i: int|
        0 <= i < authority.len() && !('0' <= #[trigger] authority[i] <= '9') && authority[i] != '.'
}

/// Calls `up_rust::UUri::matches`: the pattern matches if each of its parts (authority, entity
/// type, entity instance, version, resource) is a wildcard or equals the candidate's part.
#[verifier::external_body]
fn pattern_matches(pattern: &UUri, candidate: &UUri) -> (matched: bool)
    ensures
        matched == pattern@.matches(candidate@),
{
    let pattern = up_rust::UUri {
        authority_name: pattern.authority_name.clone(),
        ue_id: pattern.ue_id,
        ue_version_major: pattern.ue_version_major as u32,
        resource_id: pattern.resource_id as u32,
        ..Default::default()
    };
    let candidate = up_rust::UUri {
        authority_name: candidate.authority_name.clone(),
        ue_id: candidate.ue_id,
        ue_version_major: candidate.ue_version_major as u32,
        resource_id: candidate.resource_id as u32,
        ..Default::default()
    };
    pattern.matches(&candidate)
}

/// Calls `up_rust::UUri::verify_no_wildcards`: it succeeds if no part of the URI is a wildcard.
#[verifier::external_body]
fn has_no_wildcards(uri: &UUri) -> (exact: bool)
    ensures
        exact == !uri@.has_wildcard(),
{
    let uri = up_rust::UUri {
        authority_name: uri.authority_name.clone(),
        ue_id: uri.ue_id,
        ue_version_major: uri.ue_version_major as u32,
        resource_id: uri.resource_id as u32,
        ..Default::default()
    };
    uri.verify_no_wildcards().is_ok()
}

/// Calls `up_rust::UUri::try_from_parts`: it succeeds or fails by the authority alone, stores the
/// authority in the form that [`accepted_authority`] names, and the numbers as they are. A plain
/// authority is accepted and stored as it is. Which other authorities are accepted is not said.
#[verifier::external_body]
fn checked_parts(authority: &str, ue_id: u32, version: u8, resource: u16) -> (uri: Option<UUri>)
    ensures
        match uri {
            Some(uri) => accepted_authority(authority@) == Some(uri@.authority) && uri@.ue_id
                == ue_id && uri@.version == version && uri@.resource == resource && (
            is_plain_authority(authority@) ==> uri@.authority == authority@),
            None => accepted_authority(authority@) is None && !is_plain_authority(authority@),
        },
{
    match up_rust::UUri::try_from_parts(authority, ue_id, version, resource) {
        Ok(uri) => Some(
            UUri {
                authority_name: uri.authority_name(),
                ue_id: uri.ue_id,
                ue_version_major: uri.uentity_major_version(),
                resource_id: uri.resource_id(),
            },
        ),
        Err(_) => None,
    }
}

impl Clone for UUri {
    fn clone(&self) -> (copy: Self)
        ensures
            copy@ == self@,
    {
        UUri {
            authority_name: self.authority_name.clone(),
            ue_id: self.ue_id,
            ue_version_major: self.ue_version_major,
            resource_id: self.resource_id,
        }
    }
}

impl PartialEq for UUri {
    fn eq(&self, other: &Self) -> (same: bool) {
        let same: bool = self.authority_name == other.authority_name && self.ue_id == other.ue_id
            && self.ue_version_major == other.ue_version_major && self.resource_id
            == other.resource_id;
        proof {
            assert(same == (self@ =~= other@));
        }
        same
    }
}

impl vstd::std_specs::cmp::PartialEqSpecImpl for UUri {
    open spec fn obeys_eq_spec() -> bool {
        true
    }

    open spec fn eq_spec(&self, other: &Self) -> bool {
        self@ == other@
    }
}

impl UUri {
    /// The URI with the given parts, if the authority is a valid one.
    pub fn try_from_parts(
        authority: &str,
        entity_id: u32,
        entity_version: u8,
        resource_id: u16,
    ) -> (result: Result<UUri, UUriError>)
        ensures
            result is Ok <==> accepted_authority(authority@) is Some,
            is_plain_authority(authority@) ==> accepted_authority(authority@) == Some(authority@),
            match result {
                Ok(uri) => uri@ == (UriParts {
                    authority: accepted_authority(authority@)->0,
                    ue_id: entity_id,
                    version: entity_version,
                    resource: resource_id,
                }),
                Err(error) => error == UUriError::InvalidAuthority,
            },
    {
        match checked_parts(authority, entity_id, entity_version, resource_id) {
            Some(uri) => Ok(uri),
            None => Err(UUriError::InvalidAuthority),
        }
    }

    /// The URI that consists of wildcards and matches every URI.
    pub fn any() -> (uri: UUri)
        ensures
            uri@ == any_parts(),
    {
        UUri {
            authority_name: "*".to_owned(),
            ue_id: 0xFFFF_FFFF,
            ue_version_major: 0xFF,
            resource_id: 0xFFFF,
        }
    }

    /// The authority.
    pub fn authority_name(&self) -> (authority: &str)
        ensures
            authority@ == self@.authority,
    {
        self.authority_name.as_str()
    }

    /// Whether the authority is empty, which stands for the local host.
    pub fn has_empty_authority(&self) -> (empty: bool)
        ensures
            empty == (self@.authority.len() == 0),
    {
        self.authority_name.as_str().unicode_len() == 0
    }

    /// The entity type.
    pub fn uentity_type_id(&self) -> (id: u16)
        ensures
            id == self@.type_id(),
    {
        (self.ue_id % 0x10000) as u16
    }

    /// The entity instance.
    pub fn uentity_instance_id(&self) -> (id: u16)
        ensures
            id == self@.instance_id(),
    {
        (self.ue_id / 0x10000) as u16
    }

    /// The major version of the entity.
    pub fn uentity_major_version(&self) -> (version: u8)
        ensures
            version == self@.version,
    {
        self.ue_version_major
    }

    /// The resource.
    pub fn resource_id(&self) -> (id: u16)
        ensures
            id == self@.resource,
    {
        self.resource_id
    }

    /// Whether the resource is an RPC method.
    pub fn is_rpc_method(&self) -> (is: bool)
        ensures
            is == self@.is_rpc_method(),
    {
        self.resource_id > 0 && self.resource_id < 0x8000
    }

    /// Whether the resource is the one that RPC responses are sent to.
    pub fn is_rpc_response(&self) -> (is: bool)
        ensures
            is == self@.is_response_resource(),
    {
        self.resource_id == 0
    }

    /// Whether the resource is the one that notifications are sent to.
    pub fn is_notification_destination(&self) -> (is: bool)
        ensures
            is == self@.is_response_resource(),
    {
        self.resource_id == 0
    }

    /// Whether the resource is an event.
    pub fn is_event(&self) -> (is: bool)
        ensures
            is == self@.is_event(),
    {
        self.resource_id >= 0x8000
    }

    /// Whether this pattern matches `candidate`.
    pub fn matches(&self, candidate: &UUri) -> (matched: bool)
        ensures
            matched == self@.matches(candidate@),
    {
        pattern_matches(self, candidate)
    }

    /// Whether the URI holds no wildcard.
    pub fn is_exact(&self) -> (exact: bool)
        ensures
            exact == !self@.has_wildcard(),
    {
        has_no_wildcards(self)
    }
}

impl ExactUUri {
    #[verifier::type_invariant]
    closed spec fn exact(self) -> bool {
        !self.uri@.has_wildcard()
    }

    /// The given URI as an exact one, if it holds no wildcard.
    pub fn try_from(uri: UUri) -> (result: Result<ExactUUri, UUriError>)
        ensures
            result is Ok <==> !uri@.has_wildcard(),
            match result {
                Ok(exact) => exact@ == uri@,
                Err(error) => error == UUriError::Wildcard,
            },
    {
        if uri.is_exact() {
            Ok(ExactUUri { uri })
        } else {
            Err(UUriError::Wildcard)
        }
    }

    /// The URI.
    pub fn as_uuri(&self) -> (uri: &UUri)
        ensures
            uri@ == self@,
            !uri@.has_wildcard(),
    {
        proof {
            use_type_invariant(self);
        }
        &self.uri
    }
}

/// A copy of an optional borrowed URI.
pub(crate) fn cloned_uri(uri: Option<&UUri>) -> (copy: Option<UUri>)
    ensures
        optional_parts(copy) == borrowed_parts(uri),
{
    match uri {
        Some(uri) => Some(uri.clone()),
        None => None,
    }
}

/// A borrow of an optional URI.
pub(crate) fn borrowed_uri(uri: &Option<UUri>) -> (borrow: Option<&UUri>)
    ensures
        borrowed_parts(borrow) == optional_parts(*uri),
{
    match uri {
        Some(uri) => Some(uri),
        None => None,
    }
}

/// Whether two optional URIs are the same.
pub(crate) fn same_optional_uri(a: Option<&UUri>, b: Option<&UUri>) -> (same: bool)
    ensures
        same == (borrowed_parts(a) == borrowed_parts(b)),
{
    match (a, b) {
        (Some(a), Some(b)) => *a == *b,
        (None, None) => true,
        _ => false,
    }
}

/// Whether a sink meets a sink filter: no filter accepts every sink, and also its absence.
pub open spec fn sink_accepted(actual: Option<UriParts>, filter: Option<UriParts>) -> bool {
    match filter {
        None => true,
        Some(filter) => match actual {
            None => false,
            Some(actual) => filter.matches(actual),
        },
    }
}

/// Whether the sink `actual` meets `filter`.
pub fn sink_matches(actual: Option<&UUri>, filter: Option<&UUri>) -> (matched: bool)
    ensures
        matched == sink_accepted(borrowed_parts(actual), borrowed_parts(filter)),
{
    match filter {
        None => true,
        Some(filter) => match actual {
            None => false,
            Some(actual) => filter.matches(actual),
        },
    }
}

/// Every pattern matches itself, wildcards and all.
pub proof fn pattern_matches_itself(uri: UriParts)
    ensures
        uri.matches(uri),
{
}

/// The wildcard URI matches every URI.
pub proof fn any_matches_every_uri(uri: UriParts)
    ensures
        any_parts().matches(uri),
{
}

/// A pattern without wildcards matches one URI only: itself.
pub proof fn exact_pattern_matches_only_itself(pattern: UriParts, uri: UriParts)
    requires
        !pattern.has_wildcard(),
    ensures
        pattern.matches(uri) <==> pattern == uri,
{
}

/// A pattern that matches another one matches all that the other one matches.
pub proof fn matching_is_transitive(a: UriParts, b: UriParts, c: UriParts)
    requires
        a.matches(b),
        b.matches(c),
    ensures
        a.matches(c),
{
}

/// A sink filter accepts itself as a sink; so does the absence of a filter.
pub proof fn sink_filter_accepts_itself(filter: Option<UriParts>)
    ensures
        sink_accepted(filter, filter),
{
}

/// The parts of a URI are its fields.
pub proof fn parts_are_the_fields(uri: UUri)
    ensures
        uri@.authority == uri.authority_name@,
        uri@.ue_id == uri.ue_id,
        uri@.version == uri.ue_version_major,
        uri@.resource == uri.resource_id,
        optional_parts(Some(uri)) == Some(uri@),
        optional_parts(None) is None,
        borrowed_parts(Some(&uri)) == Some(uri@),
        borrowed_parts(None) is None,
{
}

/// The entity identifier is made of the instance, in its upper half, and the type, in its lower.
pub proof fn entity_is_instance_and_type(uri: UriParts)
    ensures
        uri.ue_id == uri.instance_id() * 0x10000 + uri.type_id(),
        uri.type_id() <= 0xFFFF,
        uri.instance_id() <= 0xFFFF,
{
}

/// A pattern matches a URI exactly if each of its parts is a wildcard or the part of the URI:
/// authority, lower and upper half of the entity, version and resource.
pub proof fn pattern_matches_part_by_part(pattern: UriParts, uri: UriParts)
    ensures
        pattern.matches(uri) <==> {
            &&& pattern.authority == seq!['*'] || pattern.authority == uri.authority
            &&& pattern.ue_id as int % 0x10000 == 0xFFFF || pattern.ue_id as int % 0x10000
                == uri.ue_id as int % 0x10000
            &&& pattern.ue_id as int / 0x10000 == 0xFFFF || pattern.ue_id as int / 0x10000
                == uri.ue_id as int / 0x10000
            &&& pattern.version == 0xFF || pattern.version == uri.version
            &&& pattern.resource == 0xFFFF || pattern.resource == uri.resource
        },
{
    reveal_strlit("*");
    assert("*"@ =~= seq!['*']);
}

/// A URI is exact where none of its five parts is the wildcard of that part.
pub proof fn exact_uri_has_no_wildcard_part(uri: UriParts)
    ensures
        !uri.has_wildcard() <==> {
            &&& uri.authority != seq!['*']
            &&& uri.ue_id as int % 0x10000 != 0xFFFF
            &&& uri.ue_id as int / 0x10000 != 0xFFFF
            &&& uri.version != 0xFF
            &&& uri.resource != 0xFFFF
        },
{
    reveal_strlit("*");
    assert("*"@ =~= seq!['*']);
}

/// A sink meets a sink filter exactly if the filter matches it as a pattern, part by part. Without
/// a filter every sink is accepted, and also its absence; with a filter its absence is not.
pub proof fn sink_filter_is_a_pattern(sink: UriParts, filter: UriParts)
    ensures
        sink_accepted(Some(sink), Some(filter)) <==> {
            &&& filter.authority == seq!['*'] || filter.authority == sink.authority
            &&& filter.ue_id as int % 0x10000 == 0xFFFF || filter.ue_id as int % 0x10000
                == sink.ue_id as int % 0x10000
            &&& filter.ue_id as int / 0x10000 == 0xFFFF || filter.ue_id as int / 0x10000
                == sink.ue_id as int / 0x10000
            &&& filter.version == 0xFF || filter.version == sink.version
            &&& filter.resource == 0xFFFF || filter.resource == sink.resource
        },
        !sink_accepted(None, Some(filter)),
        sink_accepted(Some(sink), None),
        sink_accepted(None, None),
{
    pattern_matches_part_by_part(filter, sink);
}

/// Of two sinks that agree in every part that a filter names, both or neither meet it: what stands
/// at a wildcard does not count.
pub proof fn wildcard_part_of_a_sink_filter_does_not_count(
    sink: UriParts,
    other: UriParts,
    filter: UriParts,
)
    requires
        filter.authority != seq!['*'] ==> sink.authority == other.authority,
        filter.ue_id as int % 0x10000 != 0xFFFF ==> sink.ue_id as int % 0x10000
            == other.ue_id as int % 0x10000,
        filter.ue_id as int / 0x10000 != 0xFFFF ==> sink.ue_id as int / 0x10000
            == other.ue_id as int / 0x10000,
        filter.version != 0xFF ==> sink.version == other.version,
        filter.resource != 0xFFFF ==> sink.resource == other.resource,
    ensures
        sink_accepted(Some(sink), Some(filter)) == sink_accepted(Some(other), Some(filter)),
{
    sink_filter_is_a_pattern(sink, filter);
    sink_filter_is_a_pattern(other, filter);
}

/// Resource zero is that of responses and notifications, those up to `7FFF` are methods, and those
/// from `8000` on are events.
pub proof fn resources_are_of_three_kinds(uri: UriParts)
    ensures
        uri.is_response_resource() <==> uri.resource == 0,
        uri.is_rpc_method() <==> 1 <= uri.resource <= 0x7FFF,
        uri.is_event() <==> 0x8000 <= uri.resource,
{
}

/// The URI that matches every URI consists of wildcards.
pub proof fn any_consists_of_wildcards()
    ensures
        any_parts().authority == seq!['*'],
        any_parts().ue_id == u32::MAX,
        any_parts().version == u8::MAX,
        any_parts().resource == u16::MAX,
{
    reveal_strlit("*");
    assert("*"@ =~= seq!['*']);
}

/// A plain authority is short, and holds nothing but lower-case letters, digits and four marks; it
/// is neither a wildcard nor does it hold a slash or a colon.
pub proof fn plain_authority_is_a_short_name(authority: Seq<char>, i: int)
    requires
        is_plain_authority(authority),
        0 <= i < authority.len(),
    ensures
        1 <= authority.len() <= 128,
        authority[i] != '/' && authority[i] != ':' && authority[i] != '@' && authority[i] != '*',
        !('A' <= authority[i] <= 'Z'),
        authority[i] as int <= 126,
        authority != seq!['*'],
{
    assert(is_plain_char(authority[i]));
    assert(is_plain_char(authority[0]));
}

/// The plain characters are the lower-case letters, the digits and four marks.
pub proof fn plain_characters_are_letters_digits_and_marks(c: char)
    ensures
        is_plain_char(c) <==> 97 <= c as int <= 122 || 48 <= c as int <= 57 || seq![
            '-',
            '.',
            '_',
            '~',
        ].contains(c),
{
    let marks = seq!['-', '.', '_', '~'];
    assert(marks[0] == '-' && marks[1] == '.' && marks[2] == '_' && marks[3] == '~');
}

/// A text of one to 128 plain characters, of which one is neither a digit nor a dot, is a plain
/// authority; a text of digits and dots alone is none.
pub proof fn plain_authority_is_more_than_digits_and_dots(authority: Seq<char>, i: int)
    requires
        0 <= i < authority.len() <= 128,
        forall|k: int| 0 <= k < authority.len() ==> is_plain_char(#[trigger] authority[k]),
    ensures
        !(48 <= authority[i] as int <= 57) && authority[i] != '.' ==> is_plain_authority(authority),
        (forall|k: int|
            0 <= k < authority.len() ==> 48 <= #[trigger] authority[k] as int <= 57 || authority[k]
                == '.') ==> !is_plain_authority(authority),
{
}

} // verus!
