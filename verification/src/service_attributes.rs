//! Source provenance of a service, carried as immutable iceoryx2 service attributes.
//!
//! A publisher creates its service with attributes that spell out its source URI. A subscriber
//! reads the source back from the attributes and attaches only where its filter matches.

use crate::service_name_mapping::{
    authority_name_on, is_storable, local_authority, resolved_authority,
};
use crate::status::{UCode, UStatus};
use crate::text::{
    encode_hex, hex, hex_text_parses_back, lemma_hex_of_u16, parse_hex_u16, parse_hex_u8,
    parsed_hex, same_text,
};
use crate::uuri::{
    accepted_authority, borrowed_parts, is_plain_authority, optional_parts,
    pattern_matches_part_by_part, UUri, UriParts,
};
use iceoryx2::service::attribute::{
    Attribute, AttributeKey, AttributeSet, AttributeValue, AttributeVerifier,
};
use iceoryx2_bb_container::semantic_string::{SemanticString, SemanticStringError};
use iceoryx2_bb_container::string::String as NativeString;
use vstd::multiset::*;
use vstd::prelude::*;
use vstd::seq_lib::*;
use vstd::string::*;

verus! {

const ATTR_TRANSPORT: &'static str = "up.transport";

const ATTR_SOURCE_AUTHORITY: &'static str = "up.source.authority";

const ATTR_SOURCE_TYPE: &'static str = "up.source.type";

const ATTR_SOURCE_INSTANCE: &'static str = "up.source.instance";

const ATTR_SOURCE_VERSION: &'static str = "up.source.version";

const ATTR_SOURCE_RESOURCE: &'static str = "up.source.resource";

const TRANSPORT_VALUE: &'static str = "uprotocol";

/// The attributes of a service, `iceoryx2::service::attribute::AttributeSet`.
#[verifier::external_type_specification]
#[verifier::external_body]
pub struct NativeAttributeSet(AttributeSet);

/// One attribute of a service, `iceoryx2::service::attribute::Attribute`.
#[verifier::external_type_specification]
#[verifier::external_body]
pub struct NativeAttribute(Attribute);

/// What a service is required to carry, `iceoryx2::service::attribute::AttributeVerifier`.
#[verifier::external_type_specification]
#[verifier::external_body]
pub struct NativeAttributeVerifier(AttributeVerifier);

/// The keys and values of the attributes of a service, in the order in which they are stored.
pub uninterp spec fn stored_attributes(attributes: AttributeSet) -> Seq<(Seq<char>, Seq<char>)>;

/// What a verifier requires: keys, each with the value that it must have, if one was given.
pub uninterp spec fn required_attributes(verifier: AttributeVerifier) -> Multiset<
    (Seq<char>, Option<Seq<char>>),
>;

/// Why a text is not an attribute key or value.
#[derive(Clone, Copy, Debug, PartialEq, Eq, Structural)]
pub enum InvalidAttributeText {
    InvalidContent,
    ExceedsMaximumLength,
}

/// A verifier holds as many requirements as it can.
#[derive(Clone, Copy, Debug, PartialEq, Eq, Structural)]
pub struct TooManyAttributes;

/// What is wrong with a text as an attribute key or value of at most `max` characters, if
/// anything.
pub open spec fn attribute_text_fault(text: Seq<char>, max: nat) -> Option<InvalidAttributeText> {
    if text.len() == 0 {
        Some(InvalidAttributeText::InvalidContent)
    } else if text.len() > max || !is_storable(text) {
        Some(InvalidAttributeText::ExceedsMaximumLength)
    } else {
        None
    }
}

/// The text that describes a fault of an attribute text.
pub open spec fn attribute_text_fault_text(fault: InvalidAttributeText) -> Seq<char> {
    match fault {
        InvalidAttributeText::InvalidContent => "SemanticStringError::InvalidContent"@,
        InvalidAttributeText::ExceedsMaximumLength => "SemanticStringError::ExceedsMaximumLength"@,
    }
}

/// The value of the first entry with the given key.
pub open spec fn first_value(entries: Seq<(Seq<char>, Seq<char>)>, key: Seq<char>) -> Option<
    Seq<char>,
>
    decreases entries.len(),
{
    if entries.len() == 0 {
        None
    } else if entries[0].0 == key {
        Some(entries[0].1)
    } else {
        first_value(entries.skip(1), key)
    }
}

/// The attributes that spell out a source, on a host of the given name.
pub open spec fn source_pairs(source: UriParts, host: Seq<char>) -> Seq<(Seq<char>, Seq<char>)> {
    seq![
        ("up.transport"@, "uprotocol"@),
        ("up.source.authority"@, resolved_authority(source, host)),
        ("up.source.type"@, hex(source.type_id())),
        ("up.source.instance"@, hex(source.instance_id())),
        ("up.source.version"@, hex(source.version as nat)),
        ("up.source.resource"@, hex(source.resource as nat)),
    ]
}

/// The requirements that a service carries each of the given entries.
pub open spec fn requirements(entries: Seq<(Seq<char>, Seq<char>)>) -> Multiset<
    (Seq<char>, Option<Seq<char>>),
> {
    required_pairs(entries).to_multiset()
}

/// The entries as requirements, in their order.
pub open spec fn required_pairs(entries: Seq<(Seq<char>, Seq<char>)>) -> Seq<
    (Seq<char>, Option<Seq<char>>),
> {
    entries.map_values(|entry: (Seq<char>, Seq<char>)| (entry.0, Some(entry.1)))
}

/// What keeps a source from being spelled out in attributes, if anything: its authority is no
/// attribute value.
pub open spec fn source_fault(source: UriParts, host: Seq<char>) -> Option<Seq<char>> {
    let authority = resolved_authority(source, host);
    match attribute_text_fault(authority, 256) {
        None => None,
        Some(fault) => Some(
            "invalid iceoryx2 service attribute value "@ + authority + ": "@
                + attribute_text_fault_text(fault),
        ),
    }
}

/// The parts of a source that the attributes of a service spell out, if they do.
pub open spec fn spelled_source(entries: Seq<(Seq<char>, Seq<char>)>) -> Option<UriParts> {
    if first_value(entries, "up.transport"@) != Some("uprotocol"@) {
        None
    } else {
        match (
            first_value(entries, "up.source.authority"@),
            number_at(entries, "up.source.type"@, 0xFFFF),
            number_at(entries, "up.source.instance"@, 0xFFFF),
            number_at(entries, "up.source.version"@, 0xFF),
            number_at(entries, "up.source.resource"@, 0xFFFF),
        ) {
            (Some(authority), Some(entity_type), Some(instance), Some(version), Some(resource)) =>
            Some(
                UriParts {
                    authority,
                    ue_id: (instance * 0x10000 + entity_type) as u32,
                    version: version as u8,
                    resource: resource as u16,
                },
            ),
            _ => None,
        }
    }
}

/// The source that the attributes of a service give: what they spell out, if its authority is
/// accepted, with the authority in the form in which URIs keep it.
pub open spec fn provenance(entries: Seq<(Seq<char>, Seq<char>)>) -> Option<UriParts> {
    match spelled_source(entries) {
        Some(spelled) => match accepted_authority(spelled.authority) {
            Some(authority) => Some(UriParts { authority, ..spelled }),
            None => None,
        },
        None => None,
    }
}

/// Whether the attributes of a service spell out a source with a plain authority.
pub open spec fn spells_plainly(entries: Seq<(Seq<char>, Seq<char>)>) -> bool {
    spelled_source(entries) is Some && is_plain_authority(spelled_source(entries)->0.authority)
}

/// Whether a filter decides on a service by what its attributes spell out, as far as that has a
/// plain authority.
pub open spec fn is_decided_as_spelled(
    entries: Seq<(Seq<char>, Seq<char>)>,
    filter: UriParts,
    host: Seq<char>,
) -> bool {
    spells_plainly(entries) ==> accepts_service(entries, filter, host) == normalized(
        filter,
        host,
    ).matches(spelled_source(entries)->0)
}

/// The number that the attribute with the given key denotes.
pub open spec fn number_at(
    entries: Seq<(Seq<char>, Seq<char>)>,
    key: Seq<char>,
    max: nat,
) -> Option<nat> {
    match first_value(entries, key) {
        Some(value) => parsed_hex(value, max),
        None => None,
    }
}

/// A URI with its authority resolved on a host of the given name.
pub open spec fn normalized(uri: UriParts, host: Seq<char>) -> UriParts {
    UriParts { authority: resolved_authority(uri, host), ..uri }
}

/// Whether a service with the given attributes comes from a source that the filter matches.
pub open spec fn accepts_service(
    entries: Seq<(Seq<char>, Seq<char>)>,
    filter: UriParts,
    host: Seq<char>,
) -> bool {
    match provenance(entries) {
        Some(source) => normalized(filter, host).matches(source),
        None => false,
    }
}

/// Converts a text to an `iceoryx2::service::attribute::AttributeKey` and back: an empty text is
/// invalid content, a text of more than 64 characters or with a character outside one to 127 is
/// reported as too long, and every other text is kept as it is.
#[verifier::external_body]
fn native_key(text: &str) -> (result: Result<String, InvalidAttributeText>)
    ensures
        match result {
            Ok(stored) => attribute_text_fault(text@, 64) is None && stored@ == text@,
            Err(fault) => attribute_text_fault(text@, 64) == Some(fault),
        },
{
    match AttributeKey::try_from(text) {
        Ok(key) => Ok(key.as_string().as_str().to_owned()),
        Err(SemanticStringError::InvalidContent) => Err(InvalidAttributeText::InvalidContent),
        Err(SemanticStringError::ExceedsMaximumLength) => Err(
            InvalidAttributeText::ExceedsMaximumLength,
        ),
    }
}

/// Converts a text to an `iceoryx2::service::attribute::AttributeValue` and back: an empty text
/// is invalid content, a text of more than 256 characters or with a character outside one to 127
/// is reported as too long, and every other text is kept as it is.
#[verifier::external_body]
fn native_value(text: &str) -> (result: Result<String, InvalidAttributeText>)
    ensures
        match result {
            Ok(stored) => attribute_text_fault(text@, 256) is None && stored@ == text@,
            Err(fault) => attribute_text_fault(text@, 256) == Some(fault),
        },
{
    match AttributeValue::try_from(text) {
        Ok(value) => Ok(value.as_string().as_str().to_owned()),
        Err(SemanticStringError::InvalidContent) => Err(InvalidAttributeText::InvalidContent),
        Err(SemanticStringError::ExceedsMaximumLength) => Err(
            InvalidAttributeText::ExceedsMaximumLength,
        ),
    }
}

/// Calls `AttributeVerifier::new`: a verifier that requires nothing.
#[verifier::external_body]
fn empty_verifier() -> (verifier: AttributeVerifier)
    ensures
        required_attributes(verifier) == Multiset::<(Seq<char>, Option<Seq<char>>)>::empty(),
{
    AttributeVerifier::new()
}

/// Calls `AttributeVerifier::require`: it adds one requirement, and fails only where eight
/// requirements are there already.
#[verifier::external_body]
fn require(verifier: AttributeVerifier, key: &str, value: &str) -> (result: Result<
    AttributeVerifier,
    TooManyAttributes,
>)
    requires
        attribute_text_fault(key@, 64) is None,
        attribute_text_fault(value@, 256) is None,
    ensures
        result is Ok <==> required_attributes(verifier).len() < 8,
        match result {
            Ok(extended) => required_attributes(extended) == required_attributes(verifier).insert(
                (key@, Some(value@)),
            ),
            Err(_) => true,
        },
{
    let key: AttributeKey = key.try_into().expect("attribute key");
    let value: AttributeValue = value.try_into().expect("attribute value");
    verifier.require(&key, &value).map_err(|_error| TooManyAttributes)
}

/// Calls `AttributeSet::key_value` for the first value under `key`.
#[verifier::external_body]
fn attribute_value<'a>(attributes: &'a AttributeSet, key: &str) -> (value: Option<&'a str>)
    requires
        attribute_text_fault(key@, 64) is None,
    ensures
        match value {
            Some(value) => first_value(stored_attributes(*attributes), key@) == Some(value@),
            None => first_value(stored_attributes(*attributes), key@) is None,
        },
{
    let key: AttributeKey = key.try_into().expect("attribute key");
    attributes.key_value(&key, 0).map(|value| value.as_string().as_str())
}

/// The text that describes `fault`.
fn describe_attribute_text_fault(fault: InvalidAttributeText) -> (text: &'static str)
    ensures
        text@ == attribute_text_fault_text(fault),
{
    match fault {
        InvalidAttributeText::InvalidContent => "SemanticStringError::InvalidContent",
        InvalidAttributeText::ExceedsMaximumLength => "SemanticStringError::ExceedsMaximumLength",
    }
}

/// The keys and the fixed value of the attributes are attribute texts.
proof fn lemma_fixed_texts()
    ensures
        attribute_text_fault("up.transport"@, 64) is None,
        attribute_text_fault("up.source.authority"@, 64) is None,
        attribute_text_fault("up.source.type"@, 64) is None,
        attribute_text_fault("up.source.instance"@, 64) is None,
        attribute_text_fault("up.source.version"@, 64) is None,
        attribute_text_fault("up.source.resource"@, 64) is None,
        attribute_text_fault("uprotocol"@, 256) is None,
{
    reveal_strlit("up.transport");
    reveal_strlit("up.source.authority");
    reveal_strlit("up.source.type");
    reveal_strlit("up.source.instance");
    reveal_strlit("up.source.version");
    reveal_strlit("up.source.resource");
    reveal_strlit("uprotocol");
}

/// The hexadecimal digits of a sixteen-bit number are an attribute value.
proof fn lemma_hex_text(value: nat)
    requires
        value <= 0xFFFF,
    ensures
        attribute_text_fault(hex(value), 256) is None,
{
    lemma_hex_of_u16(value);
    assert forall|i: int| 0 <= i < hex(value).len() implies 1 <= #[trigger] hex(
        value,
    )[i] as int <= 127 by {
        assert(crate::text::hex_digit_value(hex(value)[i]) is Some);
    }
}

/// A key and a value as an attribute.
fn attribute(key: &str, value: &str) -> (result: Result<(String, String), UStatus>)
    ensures
        match result {
            Ok(pair) => attribute_text_fault(key@, 64) is None && attribute_text_fault(
                value@,
                256,
            ) is None && pair.0@ == key@ && pair.1@ == value@,
            Err(status) => match attribute_text_fault(key@, 64) {
                Some(fault) => status.says(
                    UCode::InvalidArgument,
                    "invalid iceoryx2 service attribute key "@ + key@ + ": "@
                        + attribute_text_fault_text(fault),
                ),
                None => match attribute_text_fault(value@, 256) {
                    Some(fault) => status.says(
                        UCode::InvalidArgument,
                        "invalid iceoryx2 service attribute value "@ + value@ + ": "@
                            + attribute_text_fault_text(fault),
                    ),
                    None => false,
                },
            },
        },
{
    let stored_key: String = match native_key(key) {
        Ok(key) => key,
        Err(fault) => {
            let message: String = String::from_str(
                "invalid iceoryx2 service attribute key ",
            ).concat(key).concat(": ").concat(describe_attribute_text_fault(fault));
            return Err(UStatus { code: UCode::InvalidArgument, message });
        },
    };
    let stored_value: String = match native_value(value) {
        Ok(value) => value,
        Err(fault) => {
            let message: String = String::from_str(
                "invalid iceoryx2 service attribute value ",
            ).concat(value).concat(": ").concat(describe_attribute_text_fault(fault));
            return Err(UStatus { code: UCode::InvalidArgument, message });
        },
    };
    Ok((stored_key, stored_value))
}

/// The texts of a sequence of attributes.
pub open spec fn pair_views(pairs: Seq<(String, String)>) -> Seq<(Seq<char>, Seq<char>)> {
    pairs.map_values(|pair: (String, String)| (pair.0@, pair.1@))
}

/// The attributes that spell out `source`, on a host of the given name.
pub fn source_attribute_pairs_on(source: &UUri, host: &str) -> (result: Result<
    Vec<(String, String)>,
    UStatus,
>)
    ensures
        match result {
            Ok(pairs) => source_fault(source@, host@) is None && pair_views(pairs@)
                == source_pairs(source@, host@),
            Err(status) => match source_fault(source@, host@) {
                Some(message) => status.says(UCode::InvalidArgument, message),
                None => false,
            },
        },
{
    proof {
        lemma_fixed_texts();
        lemma_hex_text(source@.type_id());
        lemma_hex_text(source@.instance_id());
        lemma_hex_text(source@.version as nat);
        lemma_hex_text(source@.resource as nat);
    }
    let authority: String = authority_name_on(source, host);
    let transport = attribute(ATTR_TRANSPORT, TRANSPORT_VALUE)?;
    let source_authority = attribute(ATTR_SOURCE_AUTHORITY, authority.as_str())?;
    let source_type = attribute(
        ATTR_SOURCE_TYPE,
        encode_hex(source.uentity_type_id() as u32).as_str(),
    )?;
    let source_instance = attribute(
        ATTR_SOURCE_INSTANCE,
        encode_hex(source.uentity_instance_id() as u32).as_str(),
    )?;
    let source_version = attribute(
        ATTR_SOURCE_VERSION,
        encode_hex(source.uentity_major_version() as u32).as_str(),
    )?;
    let source_resource = attribute(
        ATTR_SOURCE_RESOURCE,
        encode_hex(source.resource_id() as u32).as_str(),
    )?;
    let pairs = vec![
        transport,
        source_authority,
        source_type,
        source_instance,
        source_version,
        source_resource,
    ];
    proof {
        assert(pair_views(pairs@) =~= source_pairs(source@, host@));
    }
    Ok(pairs)
}

/// The verifier that requires the attributes of `source`, on a host of the given name.
pub fn source_attribute_verifier_on(source: &UUri, host: &str) -> (result: Result<
    AttributeVerifier,
    UStatus,
>)
    ensures
        match result {
            Ok(verifier) => source_fault(source@, host@) is None && required_attributes(verifier)
                == requirements(source_pairs(source@, host@)),
            Err(status) => match source_fault(source@, host@) {
                Some(message) => status.says(UCode::InvalidArgument, message),
                None => false,
            },
        },
        verifier_outcome(result, source@, host@),
{
    let pairs = source_attribute_pairs_on(source, host)?;
    let mut verifier = empty_verifier();
    let mut i: usize = 0;
    let ghost all = required_pairs(pair_views(pairs@));
    proof {
        lemma_fixed_texts();
        lemma_hex_text(source@.type_id());
        lemma_hex_text(source@.instance_id());
        lemma_hex_text(source@.version as nat);
        lemma_hex_text(source@.resource as nat);
        all.take(0).to_multiset_ensures();
        assert(required_attributes(verifier) =~= all.take(0).to_multiset());
        let expected = source_pairs(source@, host@);
        assert forall|j: int| 0 <= j < pairs@.len() implies attribute_text_fault(
            (#[trigger] pairs@[j]).0@,
            64,
        ) is None && attribute_text_fault(pairs@[j].1@, 256) is None by {
            assert(pair_views(pairs@)[j] == (pairs@[j].0@, pairs@[j].1@));
            assert(expected[j] == (pairs@[j].0@, pairs@[j].1@));
        }
    }
    while i < pairs.len()
        invariant
            i <= pairs.len(),
            pairs@.len() == 6,
            all == required_pairs(pair_views(pairs@)),
            required_attributes(verifier) == all.take(i as int).to_multiset(),
            forall|j: int|
                0 <= j < pairs@.len() ==> attribute_text_fault((#[trigger] pairs@[j]).0@, 64) is None
                    && attribute_text_fault(pairs@[j].1@, 256) is None,
        decreases pairs.len() - i,
    {
        let pair = &pairs[i];
        proof {
            all.take(i as int).to_multiset_ensures();
            assert(all.take(i + 1) =~= all.take(i as int).push((pair.0@, Some(pair.1@))));
        }
        verifier = match require(verifier, pair.0.as_str(), pair.1.as_str()) {
            Ok(extended) => extended,
            Err(_) => {
                return Err(
                    UStatus::fail_with_code(
                        UCode::InvalidArgument,
                        "invalid iceoryx2 service attribute verifier requirement: AttributeDefinitionError::ExceedsMaxSupportedAttributes",
                    ),
                );
            },
        };
        i = i + 1;
    }
    proof {
        assert(all.take(i as int) =~= all);
    }
    Ok(verifier)
}

/// The source that the attributes of a service spell out.
pub fn source_from_attributes(attributes: &AttributeSet) -> (source: Option<UUri>)
    ensures
        match source {
            Some(source) => provenance(stored_attributes(*attributes)) == Some(source@),
            None => provenance(stored_attributes(*attributes)) is None,
        },
        spells_plainly(stored_attributes(*attributes)) ==> source is Some && source->0@
            == spelled_source(stored_attributes(*attributes))->0,
{
    proof {
        lemma_fixed_texts();
    }
    let transport = attribute_value(attributes, ATTR_TRANSPORT)?;
    if !same_text(transport, TRANSPORT_VALUE) {
        return None;
    }
    let authority = attribute_value(attributes, ATTR_SOURCE_AUTHORITY)?;
    let entity_type: u16 = parse_hex_u16(attribute_value(attributes, ATTR_SOURCE_TYPE)?)?;
    let entity_instance: u16 = parse_hex_u16(attribute_value(attributes, ATTR_SOURCE_INSTANCE)?)?;
    let version: u8 = parse_hex_u8(attribute_value(attributes, ATTR_SOURCE_VERSION)?)?;
    let resource: u16 = parse_hex_u16(attribute_value(attributes, ATTR_SOURCE_RESOURCE)?)?;
    let entity_id: u32 = entity_instance as u32 * 0x10000 + entity_type as u32;
    match UUri::try_from_parts(authority, entity_id, version, resource) {
        Ok(uri) => Some(uri),
        Err(_) => None,
    }
}

/// A URI with its authority resolved on a host of the given name.
pub(crate) fn normalized_uri(uri: &UUri, host: &str) -> (resolved: UUri)
    ensures
        resolved@ == normalized(uri@, host@),
{
    UUri {
        authority_name: authority_name_on(uri, host),
        ue_id: uri.ue_id,
        ue_version_major: uri.ue_version_major,
        resource_id: uri.resource_id,
    }
}

/// An optional URI with its authority resolved on a host of the given name.
pub open spec fn normalized_option(uri: Option<UriParts>, host: Seq<char>) -> Option<UriParts> {
    match uri {
        Some(uri) => Some(normalized(uri, host)),
        None => None,
    }
}

/// An optional URI with its authority resolved on a host of the given name.
pub(crate) fn normalized_optional_uri(uri: Option<&UUri>, host: &str) -> (resolved: Option<UUri>)
    ensures
        optional_parts(resolved) == normalized_option(borrowed_parts(uri), host@),
{
    match uri {
        Some(uri) => Some(normalized_uri(uri, host)),
        None => None,
    }
}

/// Whether a service with the given attributes comes from a source that the filter matches, on a
/// host of the given name.
pub fn attributes_match_source_filter_on(
    attributes: &AttributeSet,
    filter: &UUri,
    host: &str,
) -> (matched: bool)
    ensures
        matched == accepts_service(stored_attributes(*attributes), filter@, host@),
        is_decided_as_spelled(stored_attributes(*attributes), filter@, host@),
{
    match source_from_attributes(attributes) {
        Some(source) => normalized_uri(filter, host).matches(&source),
        None => false,
    }
}

/// Whether a service with the given attributes comes from a source that the filter matches, where
/// an empty authority of the filter stands for this host.
pub fn attributes_match_source_filter(attributes: &AttributeSet, filter: &UUri) -> (matched: bool)
    ensures
        exists|host: Seq<char>|
            matched == #[trigger] accepts_service(stored_attributes(*attributes), filter@, host),
        filter@.authority.len() > 0 ==> forall|host: Seq<char>|
            matched == #[trigger] accepts_service(stored_attributes(*attributes), filter@, host),
{
    let host: String = local_authority();
    attributes_match_source_filter_on(attributes, filter, host.as_str())
}

/// The verifier that requires the attributes of `source`, where an empty authority stands for
/// this host.
pub fn source_attribute_verifier(source: &UUri) -> (result: Result<AttributeVerifier, UStatus>)
    ensures
        exists|host: Seq<char>| #[trigger] verifier_outcome(result, source@, host),
        source@.authority.len() > 0 ==> forall|host: Seq<char>| #[trigger]
            verifier_outcome(result, source@, host),
{
    let host: String = local_authority();
    let result = source_attribute_verifier_on(source, host.as_str());
    proof {
        assert(verifier_outcome(result, source@, host@));
    }
    result
}

/// Whether `result` is the verifier or the failure for a source on a host of the given name.
pub open spec fn verifier_outcome(
    result: Result<AttributeVerifier, UStatus>,
    source: UriParts,
    host: Seq<char>,
) -> bool {
    match (result, source_fault(source, host)) {
        (Ok(verifier), None) => required_attributes(verifier) == requirements(
            source_pairs(source, host),
        ),
        (Err(status), Some(message)) => status.says(UCode::InvalidArgument, message),
        _ => false,
    }
}

/// Where all entries with a key have the same value, that value is found.
proof fn lemma_first_value(
    entries: Seq<(Seq<char>, Seq<char>)>,
    key: Seq<char>,
    value: Seq<char>,
)
    requires
        entries.contains((key, value)),
        forall|i: int| 0 <= i < entries.len() && (#[trigger] entries[i]).0 == key ==> entries[i].1
            == value,
    ensures
        first_value(entries, key) == Some(value),
    decreases entries.len(),
{
    let found = choose|i: int| 0 <= i < entries.len() && entries[i] == (key, value);
    if entries[0].0 != key {
        let rest = entries.skip(1);
        assert(rest[found - 1] == (key, value));
        lemma_first_value(rest, key, value);
    }
}

/// The keys of the attributes differ from each other.
proof fn lemma_keys_differ()
    ensures
        "up.transport"@.len() == 12,
        "up.source.authority"@.len() == 19,
        "up.source.type"@.len() == 14,
        "up.source.instance"@.len() == 18,
        "up.source.version"@.len() == 17,
        "up.source.resource"@.len() == 18,
        "up.source.instance"@ != "up.source.resource"@,
{
    reveal_strlit("up.transport");
    reveal_strlit("up.source.authority");
    reveal_strlit("up.source.type");
    reveal_strlit("up.source.instance");
    reveal_strlit("up.source.version");
    reveal_strlit("up.source.resource");
    assert("up.source.instance"@[10] == 'i');
    assert("up.source.resource"@[10] == 'r');
}

/// A service that carries exactly what the verifier of a source requires, in whatever order,
/// spells that source out, with its authority resolved.
pub proof fn published_source_is_spelled_out(
    source: UriParts,
    host: Seq<char>,
    entries: Seq<(Seq<char>, Seq<char>)>,
)
    requires
        requirements(entries) == requirements(source_pairs(source, host)),
    ensures
        spelled_source(entries) == Some(normalized(source, host)),
{
    let pairs = source_pairs(source, host);
    assert forall|entry: (Seq<char>, Seq<char>)| pairs.contains(entry) implies entries.contains(
        entry,
    ) by {
        let i = choose|i: int| 0 <= i < pairs.len() && pairs[i] == entry;
        assert(required_pairs(pairs)[i] == (entry.0, Some(entry.1)));
        to_multiset_contains(required_pairs(pairs), (entry.0, Some(entry.1)));
        to_multiset_contains(required_pairs(entries), (entry.0, Some(entry.1)));
        let j = choose|j: int|
            0 <= j < required_pairs(entries).len() && required_pairs(entries)[j] == (
                entry.0,
                Some(entry.1),
            );
        assert(entries[j] == entry);
    }
    assert forall|i: int| 0 <= i < entries.len() implies pairs.contains(#[trigger] entries[i]) by {
        let entry = entries[i];
        assert(required_pairs(entries)[i] == (entry.0, Some(entry.1)));
        to_multiset_contains(required_pairs(entries), (entry.0, Some(entry.1)));
        to_multiset_contains(required_pairs(pairs), (entry.0, Some(entry.1)));
        let j = choose|j: int|
            0 <= j < required_pairs(pairs).len() && required_pairs(pairs)[j] == (
                entry.0,
                Some(entry.1),
            );
        assert(pairs[j] == entry);
    }
    lemma_keys_differ();
    assert forall|k: int, i: int|
        0 <= k < pairs.len() && 0 <= i < entries.len() && (#[trigger] entries[i]).0 == (
        #[trigger] pairs[k]).0 implies entries[i].1 == pairs[k].1 by {
        assert(pairs.contains(entries[i]));
    }
    assert forall|k: int| 0 <= k < pairs.len() implies first_value(
        entries,
        (#[trigger] pairs[k]).0,
    ) == Some(pairs[k].1) by {
        assert(pairs.contains(pairs[k]));
        lemma_first_value(entries, pairs[k].0, pairs[k].1);
    }
    assert(first_value(entries, pairs[0].0) == Some(pairs[0].1));
    assert(first_value(entries, pairs[1].0) == Some(pairs[1].1));
    assert(first_value(entries, pairs[2].0) == Some(pairs[2].1));
    assert(first_value(entries, pairs[3].0) == Some(pairs[3].1));
    assert(first_value(entries, pairs[4].0) == Some(pairs[4].1));
    assert(first_value(entries, pairs[5].0) == Some(pairs[5].1));
    hex_text_parses_back(source.type_id(), 0xFFFF);
    hex_text_parses_back(source.instance_id(), 0xFFFF);
    hex_text_parses_back(source.version as nat, 0xFF);
    hex_text_parses_back(source.resource as nat, 0xFFFF);
}

/// A service that carries exactly what the verifier of a source requires, in whatever order,
/// gives that source back, with its authority resolved. An authority that URIs do not keep in its
/// given form is left out.
pub proof fn published_source_is_recovered(
    source: UriParts,
    host: Seq<char>,
    entries: Seq<(Seq<char>, Seq<char>)>,
)
    requires
        requirements(entries) == requirements(source_pairs(source, host)),
    ensures
        accepted_authority(resolved_authority(source, host)) == Some(
            resolved_authority(source, host),
        ) ==> provenance(entries) == Some(normalized(source, host)),
{
    published_source_is_spelled_out(source, host, entries);
}

/// A subscriber attaches to the service of a source exactly where its filter matches the source.
pub proof fn filter_decides_on_published_source(
    source: UriParts,
    host: Seq<char>,
    entries: Seq<(Seq<char>, Seq<char>)>,
    filter: UriParts,
)
    requires
        requirements(entries) == requirements(source_pairs(source, host)),
    ensures
        accepted_authority(resolved_authority(source, host)) == Some(
            resolved_authority(source, host),
        ) ==> accepts_service(entries, filter, host) == normalized(filter, host).matches(
            normalized(source, host),
        ),
{
    published_source_is_recovered(source, host, entries);
}

/// A service without the mark of this transport is accepted by no filter.
pub proof fn foreign_service_is_never_accepted(
    entries: Seq<(Seq<char>, Seq<char>)>,
    filter: UriParts,
    host: Seq<char>,
)
    requires
        first_value(entries, "up.transport"@) != Some("uprotocol"@),
    ensures
        !accepts_service(entries, filter, host),
{
}

/// The value of a key is that of the first entry with it, and there is none where no entry has it.
pub proof fn first_entry_with_a_key_counts(
    entries: Seq<(Seq<char>, Seq<char>)>,
    key: Seq<char>,
    i: int,
)
    requires
        0 <= i <= entries.len(),
        forall|j: int| 0 <= j < i ==> (#[trigger] entries[j]).0 != key,
        i < entries.len() ==> entries[i].0 == key,
    ensures
        i < entries.len() ==> first_value(entries, key) == Some(entries[i].1),
        i == entries.len() ==> first_value(entries, key) is None,
    decreases entries.len(),
{
    if entries.len() > 0 && i > 0 {
        let rest = entries.skip(1);
        assert forall|j: int| 0 <= j < i - 1 implies (#[trigger] rest[j]).0 != key by {
            assert(rest[j] == entries[j + 1]);
        }
        assert(entries[0].0 != key);
        first_entry_with_a_key_counts(rest, key, i - 1);
    }
}

/// The attributes of a source are six: the mark of this transport, the authority as it is resolved
/// and, in hexadecimal, the lower half of the entity identifier as the type, the upper half as the
/// instance, the version and the resource.
pub proof fn source_is_spelled_out_in_six_attributes(source: UriParts, host: Seq<char>)
    ensures
        source_pairs(source, host).len() == 6,
        first_value(source_pairs(source, host), "up.transport"@) == Some("uprotocol"@),
        first_value(source_pairs(source, host), "up.source.authority"@) == Some(
            if source.authority.len() == 0 {
                host
            } else {
                source.authority
            },
        ),
        first_value(source_pairs(source, host), "up.source.type"@) == Some(
            hex((source.ue_id as int % 0x10000) as nat),
        ),
        first_value(source_pairs(source, host), "up.source.instance"@) == Some(
            hex((source.ue_id as int / 0x10000) as nat),
        ),
        first_value(source_pairs(source, host), "up.source.version"@) == Some(
            hex(source.version as nat),
        ),
        first_value(source_pairs(source, host), "up.source.resource"@) == Some(
            hex(source.resource as nat),
        ),
{
    lemma_keys_differ();
    let pairs = source_pairs(source, host);
    first_entry_with_a_key_counts(pairs, "up.transport"@, 0);
    first_entry_with_a_key_counts(pairs, "up.source.authority"@, 1);
    first_entry_with_a_key_counts(pairs, "up.source.type"@, 2);
    first_entry_with_a_key_counts(pairs, "up.source.instance"@, 3);
    first_entry_with_a_key_counts(pairs, "up.source.version"@, 4);
    first_entry_with_a_key_counts(pairs, "up.source.resource"@, 5);
}

/// Attributes spell a source out exactly if they carry the mark of this transport, its authority as
/// it is, and texts that denote the lower half of its entity identifier as the type, the upper half
/// as the instance, its version and its resource.
pub proof fn attributes_spell_out_a_source_exactly_if(
    entries: Seq<(Seq<char>, Seq<char>)>,
    source: UriParts,
)
    ensures
        spelled_source(entries) == Some(source) <==> {
            &&& first_value(entries, "up.transport"@) == Some("uprotocol"@)
            &&& first_value(entries, "up.source.authority"@) == Some(source.authority)
            &&& first_value(entries, "up.source.type"@) matches Some(text) && parsed_hex(
                text,
                0xFFFF,
            ) == Some((source.ue_id as int % 0x10000) as nat)
            &&& first_value(entries, "up.source.instance"@) matches Some(text) && parsed_hex(
                text,
                0xFFFF,
            ) == Some((source.ue_id as int / 0x10000) as nat)
            &&& first_value(entries, "up.source.version"@) matches Some(text) && parsed_hex(
                text,
                0xFF,
            ) == Some(source.version as nat)
            &&& first_value(entries, "up.source.resource"@) matches Some(text) && parsed_hex(
                text,
                0xFFFF,
            ) == Some(source.resource as nat)
        },
{
}

/// The source of a service is what its attributes spell out, but for the form in which URIs keep
/// the authority; where they accept it in no form there is no source.
pub proof fn provenance_is_what_is_spelled_out(
    entries: Seq<(Seq<char>, Seq<char>)>,
    source: UriParts,
)
    ensures
        provenance(entries) == Some(source) <==> {
            &&& spelled_source(entries) is Some
            &&& accepted_authority(spelled_source(entries)->0.authority) == Some(source.authority)
            &&& spelled_source(entries)->0.ue_id == source.ue_id
            &&& spelled_source(entries)->0.version == source.version
            &&& spelled_source(entries)->0.resource == source.resource
        },
{
}

/// Resolving a URI on a host changes an empty authority to that of the host, and nothing else.
pub proof fn resolving_changes_an_empty_authority_only(uri: UriParts, host: Seq<char>)
    ensures
        normalized(uri, host).authority == if uri.authority.len() == 0 {
            host
        } else {
            uri.authority
        },
        normalized(uri, host).ue_id == uri.ue_id,
        normalized(uri, host).version == uri.version,
        normalized(uri, host).resource == uri.resource,
        normalized_option(Some(uri), host) == Some(normalized(uri, host)),
        normalized_option(None, host) is None,
{
}

/// A filter accepts a service exactly if the service has a source, and each part of the filter, an
/// empty authority standing for the host, is a wildcard or the part of that source.
pub proof fn service_is_accepted_part_by_part(
    entries: Seq<(Seq<char>, Seq<char>)>,
    filter: UriParts,
    host: Seq<char>,
)
    ensures
        accepts_service(entries, filter, host) <==> {
            &&& provenance(entries) is Some
            &&& filter.authority == seq!['*'] || (filter.authority.len() == 0 && (host == seq!['*']
                || host == provenance(entries)->0.authority)) || (filter.authority.len() > 0
                && filter.authority == provenance(entries)->0.authority)
            &&& filter.ue_id as int % 0x10000 == 0xFFFF || filter.ue_id as int % 0x10000
                == provenance(entries)->0.ue_id as int % 0x10000
            &&& filter.ue_id as int / 0x10000 == 0xFFFF || filter.ue_id as int / 0x10000
                == provenance(entries)->0.ue_id as int / 0x10000
            &&& filter.version == 0xFF || filter.version == provenance(entries)->0.version
            &&& filter.resource == 0xFFFF || filter.resource == provenance(entries)->0.resource
        },
{
    if provenance(entries) is Some {
        pattern_matches_part_by_part(normalized(filter, host), provenance(entries)->0);
    }
    assert(seq!['*'].len() == 1);
}

/// What is required of a service is each of the entries, with its value and as often as it stands
/// there, and nothing else.
pub proof fn each_entry_is_required(
    entries: Seq<(Seq<char>, Seq<char>)>,
    key: Seq<char>,
    value: Seq<char>,
)
    ensures
        requirements(Seq::empty()) == Multiset::<(Seq<char>, Option<Seq<char>>)>::empty(),
        requirements(entries.push((key, value))) == requirements(entries).insert(
            (key, Some(value)),
        ),
        requirements(entries).len() == entries.len(),
{
    let none = required_pairs(Seq::empty());
    assert(none =~= Seq::<(Seq<char>, Option<Seq<char>>)>::empty());
    none.to_multiset_ensures();
    assert(requirements(Seq::empty()) =~= Multiset::<(Seq<char>, Option<Seq<char>>)>::empty());
    let pairs = required_pairs(entries);
    assert(required_pairs(entries.push((key, value))) =~= pairs.push((key, Some(value))));
    pairs.to_multiset_ensures();
}

/// A source is spelled out exactly if its authority, as it is resolved, has one to 256 characters,
/// each of them from one to 127; else the complaint quotes it.
pub proof fn source_is_spelled_out_exactly_if(
    source: UriParts,
    host: Seq<char>,
    authority: Seq<char>,
)
    requires
        source.authority.len() == 0 ==> authority == host,
        source.authority.len() > 0 ==> authority == source.authority,
    ensures
        source_fault(source, host) is None <==> 1 <= authority.len() <= 256 && forall|i: int|
            0 <= i < authority.len() ==> 1 <= #[trigger] authority[i] as int <= 127,
        source_fault(source, host) is Some ==> source_fault(source, host)->0
            == "invalid iceoryx2 service attribute value "@ + authority + ": "@ + (
        if authority.len() == 0 {
            "SemanticStringError::InvalidContent"@
        } else {
            "SemanticStringError::ExceedsMaximumLength"@
        }),
{
}

/// The attributes that a verifier of a source asks for are enough: a service that carries them
/// spells the source out, and every filter that matches the source accepts it. An authority that
/// URIs do not keep in its given form is left out.
pub proof fn required_attributes_spell_out_the_source(
    verifier: AttributeVerifier,
    result: Result<AttributeVerifier, UStatus>,
    source: UriParts,
    host: Seq<char>,
    entries: Seq<(Seq<char>, Seq<char>)>,
    filter: UriParts,
)
    requires
        result == Ok::<AttributeVerifier, UStatus>(verifier),
        verifier_outcome(result, source, host),
        requirements(entries) == required_attributes(verifier),
    ensures
        spelled_source(entries) == Some(normalized(source, host)),
        accepted_authority(resolved_authority(source, host)) == Some(
            resolved_authority(source, host),
        ) ==> (accepts_service(entries, filter, host) <==> normalized(filter, host).matches(
            normalized(source, host),
        )),
        source_fault(source, host) is None,
{
    published_source_is_spelled_out(source, host, entries);
    filter_decides_on_published_source(source, host, entries, filter);
}

/// A service that spells out a source with a plain authority is accepted by exactly the filters that
/// match that source, with the empty authority of a filter standing for the host.
pub proof fn plainly_spelled_source_decides(
    entries: Seq<(Seq<char>, Seq<char>)>,
    filter: UriParts,
    host: Seq<char>,
    source: UriParts,
)
    requires
        is_decided_as_spelled(entries, filter, host),
        spelled_source(entries) == Some(source),
        is_plain_authority(source.authority),
    ensures
        spells_plainly(entries),
        accepts_service(entries, filter, host) <==> normalized(filter, host).matches(source),
{
}

} // verus!
