//! Ports of iceoryx2: how a service is entered, and how a failure at a port is reported.

use crate::service_attributes::{
    normalized, published_source_is_spelled_out, required_attributes, requirements,
    source_attribute_verifier_on, source_fault, source_pairs, spelled_source,
};
use crate::status::{UCode, UStatus};
use crate::uuri::{borrowed_parts, UUri, UriParts};
use iceoryx2::service::attribute::AttributeVerifier;
use vstd::prelude::*;
use vstd::string::*;

verus! {

/// A failure at a port, with its description or with the name of the service that is missing.
#[derive(Clone, Debug, PartialEq, Eq)]
pub enum PortFailure {
    CreateService(String),
    ServiceDoesNotExist(String),
    OpenService(String),
    CreateSubscriber(String),
    CreatePublisher(String),
    ListServices(String),
    PullReceive(String),
    Send(String),
}

/// How a service is entered.
pub enum ServiceAccess {
    /// It is created with the given attributes, or opened if it has them.
    OpenOrCreate(AttributeVerifier),
    /// It is opened as it is.
    Open,
}

/// The code and the message that report a failure at a port.
pub open spec fn failure_report(failure: PortFailure) -> (UCode, Seq<char>) {
    match failure {
        PortFailure::CreateService(error) => (
            UCode::Internal,
            "failed to create iceoryx2 service: "@ + error@,
        ),
        PortFailure::ServiceDoesNotExist(name) => (
            UCode::NotFound,
            "iceoryx2 service does not exist: "@ + name@,
        ),
        PortFailure::OpenService(error) => (
            UCode::Internal,
            "failed to open iceoryx2 service: "@ + error@,
        ),
        PortFailure::CreateSubscriber(error) => (
            UCode::Internal,
            "failed to create iceoryx2 subscriber: "@ + error@,
        ),
        PortFailure::CreatePublisher(error) => (
            UCode::Internal,
            "failed to create iceoryx2 publisher: "@ + error@,
        ),
        PortFailure::ListServices(error) => (
            UCode::Internal,
            "failed to list iceoryx2 services: "@ + error@,
        ),
        PortFailure::PullReceive(error) => (UCode::Internal, error@),
        PortFailure::Send(error) => (UCode::Internal, "failed to send sample: "@ + error@),
    }
}

/// The status that reports a failure at a port.
pub fn port_failure_to_status(failure: PortFailure) -> (status: UStatus)
    ensures
        status.says(failure_report(failure).0, failure_report(failure).1),
{
    match failure {
        PortFailure::CreateService(error) => reported(
            UCode::Internal,
            "failed to create iceoryx2 service: ",
            error.as_str(),
        ),
        PortFailure::ServiceDoesNotExist(name) => reported(
            UCode::NotFound,
            "iceoryx2 service does not exist: ",
            name.as_str(),
        ),
        PortFailure::OpenService(error) => reported(
            UCode::Internal,
            "failed to open iceoryx2 service: ",
            error.as_str(),
        ),
        PortFailure::CreateSubscriber(error) => reported(
            UCode::Internal,
            "failed to create iceoryx2 subscriber: ",
            error.as_str(),
        ),
        PortFailure::CreatePublisher(error) => reported(
            UCode::Internal,
            "failed to create iceoryx2 publisher: ",
            error.as_str(),
        ),
        PortFailure::ListServices(error) => reported(
            UCode::Internal,
            "failed to list iceoryx2 services: ",
            error.as_str(),
        ),
        PortFailure::PullReceive(error) => UStatus { code: UCode::Internal, message: error },
        PortFailure::Send(error) => reported(
            UCode::Internal,
            "failed to send sample: ",
            error.as_str(),
        ),
    }
}

/// The status with the given code and a message of two parts.
fn reported(code: UCode, text: &str, detail: &str) -> (status: UStatus)
    ensures
        status.says(code, text@ + detail@),
{
    UStatus { code, message: String::from_str(text).concat(detail) }
}

/// Whether `result` is the way in which a subscriber enters a service, or the failure: with the
/// attributes of the source where that is known, else as the service is.
pub open spec fn is_subscriber_access(
    source: Option<UriParts>,
    host: Seq<char>,
    result: Result<ServiceAccess, UStatus>,
) -> bool {
    match source {
        None => result matches Ok(access) && access is Open,
        Some(source) => match (result, source_fault(source, host)) {
            (Ok(ServiceAccess::OpenOrCreate(verifier)), None) => required_attributes(verifier)
                == requirements(source_pairs(source, host)),
            (Err(status), Some(message)) => status.says(UCode::InvalidArgument, message),
            _ => false,
        },
    }
}

/// How a subscriber enters a service, on a host of the given name.
pub fn subscriber_access(source: Option<&UUri>, host: &str) -> (result: Result<
    ServiceAccess,
    UStatus,
>)
    ensures
        is_subscriber_access(borrowed_parts(source), host@, result),
{
    match source {
        Some(source) => match source_attribute_verifier_on(source, host) {
            Ok(verifier) => Ok(ServiceAccess::OpenOrCreate(verifier)),
            Err(status) => Err(status),
        },
        None => Ok(ServiceAccess::Open),
    }
}

/// A failure is reported as internal, but for a service that does not exist, which is not found;
/// and its description ends the message.
pub proof fn failure_is_reported_with_its_description(failure: PortFailure, detail: Seq<char>)
    requires
        match failure {
            PortFailure::CreateService(text) => text@ == detail,
            PortFailure::ServiceDoesNotExist(text) => text@ == detail,
            PortFailure::OpenService(text) => text@ == detail,
            PortFailure::CreateSubscriber(text) => text@ == detail,
            PortFailure::CreatePublisher(text) => text@ == detail,
            PortFailure::ListServices(text) => text@ == detail,
            PortFailure::PullReceive(text) => text@ == detail,
            PortFailure::Send(text) => text@ == detail,
        },
    ensures
        failure_report(failure).0 == UCode::NotFound <==> failure is ServiceDoesNotExist,
        failure_report(failure).0 == UCode::NotFound || failure_report(failure).0
            == UCode::Internal,
        failure is PullReceive ==> failure_report(failure).1 == detail,
        failure is CreateService ==> failure_report(failure).1
            == "failed to create iceoryx2 service: "@ + detail,
        failure is ServiceDoesNotExist ==> failure_report(failure).1
            == "iceoryx2 service does not exist: "@ + detail,
        failure is OpenService ==> failure_report(failure).1 == "failed to open iceoryx2 service: "@
            + detail,
        failure is CreateSubscriber ==> failure_report(failure).1
            == "failed to create iceoryx2 subscriber: "@ + detail,
        failure is CreatePublisher ==> failure_report(failure).1
            == "failed to create iceoryx2 publisher: "@ + detail,
        failure is ListServices ==> failure_report(failure).1
            == "failed to list iceoryx2 services: "@ + detail,
        failure is Send ==> failure_report(failure).1 == "failed to send sample: "@ + detail,
{
}

/// A subscriber for a known source enters only a service that spells that source out, and fails
/// exactly where the source cannot be spelled out; one for no known source enters any service.
pub proof fn subscriber_enters_the_service_of_its_source(
    source: Option<UriParts>,
    host: Seq<char>,
    result: Result<ServiceAccess, UStatus>,
    entries: Seq<(Seq<char>, Seq<char>)>,
)
    requires
        is_subscriber_access(source, host, result),
    ensures
        source is None ==> result is Ok && result->Ok_0 is Open,
        source is Some ==> (result is Err <==> source_fault(source->0, host) is Some),
        source is Some && result is Err ==> result->Err_0.code == UCode::InvalidArgument
            && result->Err_0.message@ == source_fault(source->0, host)->0,
        source is Some && result is Ok ==> result->Ok_0 is OpenOrCreate && (requirements(entries)
            == required_attributes(result->Ok_0->OpenOrCreate_0) ==> spelled_source(entries)
            == Some(normalized(source->0, host))),
{
    if source is Some && result is Ok && requirements(entries) == required_attributes(
        result->Ok_0->OpenOrCreate_0,
    ) {
        published_source_is_spelled_out(source->0, host, entries);
    }
}

} // verus!
