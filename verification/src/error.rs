//! The errors of talking to the CoolMaster controller.
use vstd::prelude::*;

verus! {

/// The error that reading from or writing to the controller's socket gives.
#[verifier::external_type_specification]
#[verifier::external_body]
pub struct ExIoError(std::io::Error);

/// The error of decoding a reply that is not UTF-8.
#[verifier::external_type_specification]
#[verifier::external_body]
pub struct ExFromUtf8Error(std::string::FromUtf8Error);

/// What went wrong with the controller.
///
/// Each function returns the error that arose in its own step, as it
/// arose: `InvalidReply` for a reply that is not UTF-8, `InvalidUnitState`
/// or `InvalidTemperature` for a state line that does not parse,
/// `CoolmasterCommandError` for a command the controller refused. No error
/// is wrapped in a description of the step that called the failing one;
/// `Context` carries such a description only where a caller builds one.
#[derive(Debug)]
pub enum CoolmasterError {
    ConnectionError(std::io::Error),
    NotConnected,
    InvalidReply(std::string::FromUtf8Error),
    CoolmasterCommandError(String),
    InvalidUnitState(&'static str, String),
    InvalidTemperature(String),
    InvalidCoolmasterAddress(String),
    InvalidCoolmasterPort(String),
    Context(String),
    IoError(std::io::Error),
    SendToMqttPublisherChannelFailed,
}

/// What an error says, its texts as character sequences; the outside errors
/// it carries are seen only by their kind.
pub enum CoolmasterErrorView {
    ConnectionError,
    NotConnected,
    InvalidReply,
    CoolmasterCommandError(Seq<char>),
    InvalidUnitState(Seq<char>, Seq<char>),
    InvalidTemperature(Seq<char>),
    InvalidCoolmasterAddress(Seq<char>),
    InvalidCoolmasterPort(Seq<char>),
    Context(Seq<char>),
    IoError,
    SendToMqttPublisherChannelFailed,
}

impl View for CoolmasterError {
    type V = CoolmasterErrorView;

    open spec fn view(&self) -> CoolmasterErrorView {
        match self {
            CoolmasterError::ConnectionError(_) => CoolmasterErrorView::ConnectionError,
            CoolmasterError::NotConnected => CoolmasterErrorView::NotConnected,
            CoolmasterError::InvalidReply(_) => CoolmasterErrorView::InvalidReply,
            CoolmasterError::CoolmasterCommandError(s) => CoolmasterErrorView::CoolmasterCommandError(
                s@,
            ),
            CoolmasterError::InvalidUnitState(m, s) => CoolmasterErrorView::InvalidUnitState(
                m@,
                s@,
            ),
            CoolmasterError::InvalidTemperature(s) => CoolmasterErrorView::InvalidTemperature(s@),
            CoolmasterError::InvalidCoolmasterAddress(s) => CoolmasterErrorView::InvalidCoolmasterAddress(
                s@,
            ),
            CoolmasterError::InvalidCoolmasterPort(s) => CoolmasterErrorView::InvalidCoolmasterPort(
                s@,
            ),
            CoolmasterError::Context(s) => CoolmasterErrorView::Context(s@),
            CoolmasterError::IoError(_) => CoolmasterErrorView::IoError,
            CoolmasterError::SendToMqttPublisherChannelFailed => CoolmasterErrorView::SendToMqttPublisherChannelFailed,
        }
    }
}

impl CoolmasterError {
    /// Whether the controller itself refused a command; the connection
    /// stays up after such an error.
    pub fn is_command_error(&self) -> (b: bool)
        ensures
            b == (self@ is CoolmasterCommandError),
    {
        match self {
            CoolmasterError::CoolmasterCommandError(_) => true,
            _ => false,
        }
    }
}

/// A result seen through the views of its two sides.
pub open spec fn view_result<T: View, E: View>(r: Result<T, E>) -> Result<T::V, E::V> {
    match r {
        Ok(t) => Ok(t@),
        Err(e) => Err(e@),
    }
}

} // verus!
