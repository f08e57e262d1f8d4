//! What can go wrong, and how it is put to a reader.
use vstd::prelude::*;

use crate::net::IpAddr;

verus! {

/// Failures to find the address of a host.
#[derive(Debug, PartialEq, Eq)]
pub enum DnsError {
    /// The resolver reported an error.
    DnsResolution,
    /// The domain has no entry.
    NoDNSEntry(String),
    /// An answer could not be handed to whoever asked for it.
    Send(Box<Result<IpAddr, DnsError>>),
    /// No answer came back.
    Recv,
    /// The question could not be sent.
    SendQuery,
}

/// Failures of a probe.
#[derive(Debug, PartialEq, Eq)]
pub enum QueryError {
    /// The address of the host was not found.
    Dns(DnsError),
    /// The probe took too long.
    Timeout,
    /// The HTTP client reported an error.
    Hyper,
    /// The address of the target is no URI.
    InvalidURI,
    /// The request could not be built.
    HTTP,
}

/// Failures of the web server.
#[derive(Debug, PartialEq, Eq)]
pub enum ServerError {
    /// Input or output failed.
    IO,
    /// The request to reload could not be passed on.
    ReloadMessage,
}

impl DnsError {
    /// The text that describes the error.
    pub open spec fn text(&self) -> Seq<char> {
        match self {
            DnsError::DnsResolution => "DNS resolution failed"@,
            DnsError::NoDNSEntry(_) => "No DNS entry for that domain"@,
            DnsError::Send(_) => "sending on a channel failed"@,
            DnsError::Recv => "receiving a oneshot message failed"@,
            DnsError::SendQuery => "sending the DNS query failed"@,
        }
    }

    /// Describes the error.
    pub fn message(&self) -> (message: String)
        ensures
            message@ == self.text(),
    {
        match self {
            DnsError::DnsResolution => "DNS resolution failed".to_owned(),
            DnsError::NoDNSEntry(_) => "No DNS entry for that domain".to_owned(),
            DnsError::Send(_) => "sending on a channel failed".to_owned(),
            DnsError::Recv => "receiving a oneshot message failed".to_owned(),
            DnsError::SendQuery => "sending the DNS query failed".to_owned(),
        }
    }
}

impl QueryError {
    /// The text that describes the error.
    pub open spec fn text(&self) -> Seq<char> {
        match self {
            QueryError::Dns(_) => "DNS error"@,
            QueryError::Timeout => "something timed out"@,
            QueryError::Hyper => "Hyper error"@,
            QueryError::InvalidURI => "Invalid URI"@,
            QueryError::HTTP => "HTTP error"@,
        }
    }

    /// Describes the error.
    pub fn message(&self) -> (message: String)
        ensures
            message@ == self.text(),
    {
        match self {
            QueryError::Dns(_) => "DNS error".to_owned(),
            QueryError::Timeout => "something timed out".to_owned(),
            QueryError::Hyper => "Hyper error".to_owned(),
            QueryError::InvalidURI => "Invalid URI".to_owned(),
            QueryError::HTTP => "HTTP error".to_owned(),
        }
    }
}

impl ServerError {
    /// The text that describes the error.
    pub open spec fn text(&self) -> Seq<char> {
        match self {
            ServerError::IO => "IO error"@,
            ServerError::ReloadMessage => "sending a reload message failed"@,
        }
    }

    /// Describes the error.
    pub fn message(&self) -> (message: String)
        ensures
            message@ == self.text(),
    {
        match self {
            ServerError::IO => "IO error".to_owned(),
            ServerError::ReloadMessage => "sending a reload message failed".to_owned(),
        }
    }
}

impl From<DnsError> for QueryError {
    fn from(error: DnsError) -> (res: QueryError) {
        QueryError::Dns(error)
    }
}

impl vstd::std_specs::convert::FromSpecImpl<DnsError> for QueryError {
    open spec fn obeys_from_spec() -> bool {
        true
    }

    open spec fn from_spec(error: DnsError) -> QueryError {
        QueryError::Dns(error)
    }
}

/// How each failure to find an address is put, whatever it holds.
pub proof fn law_dns_errors_are_described(error: DnsError)
    ensures
        error is DnsResolution ==> error.text() == "DNS resolution failed"@,
        error is NoDNSEntry ==> error.text() == "No DNS entry for that domain"@,
        error is Send ==> error.text() == "sending on a channel failed"@,
        error is Recv ==> error.text() == "receiving a oneshot message failed"@,
        error is SendQuery ==> error.text() == "sending the DNS query failed"@,
{
}

/// How each failure of a probe or of the web server is put, whatever it holds. A failure to find an
/// address is a failure of the probe that needs it.
pub proof fn law_errors_are_described(cause: DnsError, error: QueryError, failure: ServerError)
    ensures
        error is Dns ==> error.text() == "DNS error"@,
        error is Timeout ==> error.text() == "something timed out"@,
        error is Hyper ==> error.text() == "Hyper error"@,
        error is InvalidURI ==> error.text() == "Invalid URI"@,
        error is HTTP ==> error.text() == "HTTP error"@,
        failure is IO ==> failure.text() == "IO error"@,
        failure is ReloadMessage ==> failure.text() == "sending a reload message failed"@,
        <QueryError as vstd::std_specs::convert::FromSpec<DnsError>>::from_spec(cause)
            == QueryError::Dns(cause),
{
}

} // verus!
