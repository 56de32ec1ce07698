//! Error taxonomy of the ledger and of the service around it.
use vstd::prelude::*;
use crate::env::string_from_chars;

verus! {

/// Failure of a ledger operation.
#[derive(Debug)]
pub enum ApiError {
    /// The store could not carry out the operation.
    DbExecutionError(String),
    /// A business rule forbids the operation in the record's present state.
    FailedPrecondition(String),
    /// The entity named by the request does not exist.
    NotFound(String),
    /// Defensive catch-all.
    Unknown,
}

/// Status codes of the RPC transport that the service's errors map onto.
#[derive(PartialEq, Eq, Structural, Clone, Copy, Debug)]
pub enum Code {
    InvalidArgument,
    NotFound,
    FailedPrecondition,
    Internal,
    Unknown,
}

/// Failure of a service call, including the subscription protocol.
#[derive(Debug)]
pub enum ServiceError {
    ParseError(String),
    StreamStartError,
    StreamError,
    DatabaseError(String),
    FailedPrecondition(String),
    NotFound(String),
    Unknown,
}

pub open spec fn http_status_of(e: ApiError) -> u16 {
    match e {
        ApiError::DbExecutionError(_) => 500,
        ApiError::FailedPrecondition(_) => 400,
        ApiError::NotFound(_) => 404,
        ApiError::Unknown => 500,
    }
}

pub open spec fn service_error_of(e: ApiError) -> ServiceError {
    match e {
        ApiError::DbExecutionError(m) => ServiceError::DatabaseError(m),
        ApiError::FailedPrecondition(m) => ServiceError::FailedPrecondition(m),
        ApiError::NotFound(m) => ServiceError::NotFound(m),
        ApiError::Unknown => ServiceError::Unknown,
    }
}

pub open spec fn code_of(e: ServiceError) -> Code {
    match e {
        ServiceError::ParseError(_) => Code::InvalidArgument,
        ServiceError::StreamStartError => Code::Internal,
        ServiceError::StreamError => Code::Internal,
        ServiceError::DatabaseError(_) => Code::Internal,
        ServiceError::FailedPrecondition(_) => Code::FailedPrecondition,
        ServiceError::NotFound(_) => Code::NotFound,
        ServiceError::Unknown => Code::Unknown,
    }
}

/// The ASCII digit for `d`, a number below ten.
pub open spec fn digit_char(d: nat) -> char {
    ((d + 48) as u32) as char
}

/// The decimal numeral of `n`, without leading zeros.
pub open spec fn decimal_of(n: nat) -> Seq<char>
    decreases n,
{
    if n < 10 {
        seq![digit_char(n)]
    } else {
        decimal_of(n / 10).push(digit_char(n % 10))
    }
}

/// The message of a lookup that found nothing: `"<what> <id> not found"`.
pub open spec fn not_found_text(what: Seq<char>, id: u64) -> Seq<char> {
    what + " "@ + decimal_of(id as nat) + " not found"@
}

fn push_decimal(n: u64, out: &mut Vec<char>)
    ensures
        final(out)@ == old(out)@ + decimal_of(n as nat),
    decreases n,
{
    if n >= 10 {
        push_decimal(n / 10, out);
    }
    let d: u8 = (n % 10) as u8;
    out.push((d + 48u8) as char);
    proof {
        if n >= 10 {
            assert(decimal_of(n as nat) == decimal_of((n / 10) as nat).push(digit_char((n % 10) as nat)));
        }
    }
    assert(out@ =~= old(out)@ + decimal_of(n as nat));
}

/// `"<what> <id> not found"`.
pub(crate) fn not_found_message(what: &str, id: u64) -> (r: String)
    ensures
        r@ == not_found_text(what@, id),
{
    let mut digits: Vec<char> = Vec::new();
    push_decimal(id, &mut digits);
    assert(digits@ =~= decimal_of(id as nat));
    let numeral = string_from_chars(&digits);
    let mut msg = what.to_owned();
    msg.append(" ");
    msg.append(numeral.as_str());
    msg.append(" not found");
    msg
}

impl ApiError {
    /// The HTTP status that reports this error.
    pub fn status_code(&self) -> (r: u16)
        ensures
            r == http_status_of(*self),
    {
        match self {
            ApiError::DbExecutionError(_) => 500,
            ApiError::FailedPrecondition(_) => 400,
            ApiError::NotFound(_) => 404,
            ApiError::Unknown => 500,
        }
    }
}

impl From<ApiError> for ServiceError {
    fn from(value: ApiError) -> (r: ServiceError) {
        match value {
            ApiError::DbExecutionError(m) => ServiceError::DatabaseError(m),
            ApiError::FailedPrecondition(m) => ServiceError::FailedPrecondition(m),
            ApiError::NotFound(m) => ServiceError::NotFound(m),
            ApiError::Unknown => ServiceError::Unknown,
        }
    }
}

impl vstd::std_specs::convert::FromSpecImpl<ApiError> for ServiceError {
    open spec fn obeys_from_spec() -> bool {
        true
    }

    open spec fn from_spec(v: ApiError) -> ServiceError {
        service_error_of(v)
    }
}

impl ServiceError {
    /// The RPC status code that reports this error.
    pub fn code(&self) -> (r: Code)
        ensures
            r == code_of(*self),
    {
        match self {
            ServiceError::ParseError(_) => Code::InvalidArgument,
            ServiceError::StreamStartError => Code::Internal,
            ServiceError::StreamError => Code::Internal,
            ServiceError::DatabaseError(_) => Code::Internal,
            ServiceError::FailedPrecondition(_) => Code::FailedPrecondition,
            ServiceError::NotFound(_) => Code::NotFound,
            ServiceError::Unknown => Code::Unknown,
        }
    }
}

} // verus!
