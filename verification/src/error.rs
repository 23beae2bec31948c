//! The error of every operation, and its four kinds.

use vstd::prelude::*;
use vstd::std_specs::convert::FromSpecImpl;

verus! {

/// `std::io::Error`, which is carried through as it is: nothing is said of
/// what it holds.
#[verifier::external_type_specification]
#[verifier::external_body]
pub struct ExIoError(std::io::Error);

/// Calls `to_string` on a `std::io::Error`: what `Display` shows of it.
/// Nothing is promised of the text.
#[verifier::external_body]
fn io_message(err: &std::io::Error) -> String {
    err.to_string()
}

/// The four ways an operation can fail, without the message.
#[derive(Clone, Copy, Debug, PartialEq, Eq, Structural)]
pub enum ErrKind {
    /// Received bytes do not have the expected shape.
    Data,
    /// A time, system or charset conversion failed.
    Internal,
    /// The feature is not available.
    NoImpl,
    /// A socket operation failed.
    Io,
}

/// Uniform error of every operation.
#[derive(Debug)]
pub enum MspErr {
    /// Received bytes do not have the expected shape, or a number among them
    /// does not parse.
    DataErr(String),
    /// The clock, the system or a charset conversion failed.
    InternalErr(String),
    /// Unimplemented features.
    NoImpl(String),
    /// Errors that occur on sockets.
    IoErr(std::io::Error),
}

impl MspErr {
    /// Which of the four kinds this error is.
    pub open spec fn spec_kind(&self) -> ErrKind {
        match self {
            MspErr::DataErr(_) => ErrKind::Data,
            MspErr::InternalErr(_) => ErrKind::Internal,
            MspErr::NoImpl(_) => ErrKind::NoImpl,
            MspErr::IoErr(_) => ErrKind::Io,
        }
    }

    /// A `DataErr` that carries `msg`.
    pub fn data(msg: &str) -> (e: MspErr)
        ensures
            e matches MspErr::DataErr(text) && text@ == msg@,
    {
        MspErr::DataErr(String::from_str(msg))
    }

    /// An `InternalErr` that carries `msg`.
    pub fn internal(msg: &str) -> (e: MspErr)
        ensures
            e matches MspErr::InternalErr(text) && text@ == msg@,
    {
        MspErr::InternalErr(String::from_str(msg))
    }

    /// A `NoImpl` that carries `msg`.
    pub fn no_impl(msg: &str) -> (e: MspErr)
        ensures
            e matches MspErr::NoImpl(text) && text@ == msg@,
    {
        MspErr::NoImpl(String::from_str(msg))
    }

    /// The message of the error. For a socket error it is what the system
    /// says of it.
    pub fn to_string(&self) -> (s: String)
        ensures
            match self {
                MspErr::DataErr(msg) => s@ == msg@,
                MspErr::InternalErr(msg) => s@ == msg@,
                MspErr::NoImpl(msg) => s@ == msg@,
                MspErr::IoErr(_) => true,
            },
    {
        match self {
            MspErr::DataErr(msg) => msg.clone(),
            MspErr::InternalErr(msg) => msg.clone(),
            MspErr::NoImpl(msg) => msg.clone(),
            MspErr::IoErr(err) => io_message(err),
        }
    }

    /// Which of the four kinds this error is.
    #[verifier::when_used_as_spec(spec_kind)]
    pub fn kind(&self) -> (k: ErrKind)
        ensures
            k == self.spec_kind(),
    {
        match self {
            MspErr::DataErr(_) => ErrKind::Data,
            MspErr::InternalErr(_) => ErrKind::Internal,
            MspErr::NoImpl(_) => ErrKind::NoImpl,
            MspErr::IoErr(_) => ErrKind::Io,
        }
    }
}

impl From<std::io::Error> for MspErr {
    /// A socket error becomes an `IoErr`.
    fn from(err: std::io::Error) -> (r: Self) {
        MspErr::IoErr(err)
    }
}

impl FromSpecImpl<std::io::Error> for MspErr {
    open spec fn obeys_from_spec() -> bool {
        true
    }

    open spec fn from_spec(err: std::io::Error) -> Self {
        MspErr::IoErr(err)
    }
}

} // verus!
