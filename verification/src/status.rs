//! gRPC statuses.

use vstd::prelude::*;

verus! {

/// The status codes that the proxy answers with.
#[derive(Clone, Copy, Debug, PartialEq, Eq, Structural)]
pub enum Code {
    InvalidArgument,
    DeadlineExceeded,
    NotFound,
    PermissionDenied,
    ResourceExhausted,
    Internal,
    Unavailable,
    Unauthenticated,
}

impl Code {
    /// How `tonic` describes the code.
    pub open spec fn spec_description(self) -> Seq<char> {
        match self {
            Code::InvalidArgument => "Client specified an invalid argument"@,
            Code::DeadlineExceeded => "Deadline expired before operation could complete"@,
            Code::NotFound => "Some requested entity was not found"@,
            Code::PermissionDenied =>
                "The caller does not have permission to execute the specified operation"@,
            Code::ResourceExhausted => "Some resource has been exhausted"@,
            Code::Internal => "Internal error"@,
            Code::Unavailable => "The service is currently unavailable"@,
            Code::Unauthenticated =>
                "The request does not have valid authentication credentials"@,
        }
    }
}

/// `tonic::Code::description`: a fixed text for each code.
#[verifier::external_body]
pub(crate) fn description(code: Code) -> (text: &'static str)
    ensures
        text@ == code.spec_description(),
{
    match code {
        Code::InvalidArgument => tonic::Code::InvalidArgument.description(),
        Code::DeadlineExceeded => tonic::Code::DeadlineExceeded.description(),
        Code::NotFound => tonic::Code::NotFound.description(),
        Code::PermissionDenied => tonic::Code::PermissionDenied.description(),
        Code::ResourceExhausted => tonic::Code::ResourceExhausted.description(),
        Code::Internal => tonic::Code::Internal.description(),
        Code::Unavailable => tonic::Code::Unavailable.description(),
        Code::Unauthenticated => tonic::Code::Unauthenticated.description(),
    }
}

/// The answer to a request that failed.
#[derive(Clone, Debug)]
pub struct Status {
    pub code: Code,
    pub message: String,
}

/// The value of a [`Status`].
#[verifier::ext_equal]
pub struct StatusView {
    pub code: Code,
    pub message: Seq<char>,
}

impl View for Status {
    type V = StatusView;

    open spec fn view(&self) -> StatusView {
        StatusView { code: self.code, message: self.message@ }
    }
}

/// A status whose message is a fixed text.
pub open spec fn status_of(code: Code, message: Seq<char>) -> StatusView {
    StatusView { code, message }
}

impl Status {
    /// A status whose message is a fixed text.
    pub fn new(code: Code, message: &str) -> (status: Status)
        ensures
            status@ == status_of(code, message@),
    {
        Status { code, message: message.to_owned() }
    }
}

} // verus!
