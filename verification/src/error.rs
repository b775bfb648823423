//! The failure kinds shared by every component, each with a fixed message.

use vstd::prelude::*;
use vstd::string::StringExecFns;

verus! {

/// Why an invocation was refused or could not be carried out.
#[derive(Debug, Clone, Copy, PartialEq, Eq, Structural)]
pub enum RudoError {
    AuthenticationError,
    NoCommandSpecified,
    CommandNotFound,
    PermissionDenied,
    MalformedRudoersToml,
    NotInRudoers,
    NoSwitchEntry,
    UnknownError,
    BadHostname,
    BadUsername,
    BadGroupname,
}

impl RudoError {
    /// The fixed human-readable message of each kind, without line break.
    pub open spec fn message_spec(self) -> Seq<char> {
        match self {
            RudoError::AuthenticationError => "incorrect password"@,
            RudoError::NoCommandSpecified => "no command specified"@,
            RudoError::CommandNotFound => "command not found"@,
            RudoError::PermissionDenied => "permission denied :)"@,
            RudoError::MalformedRudoersToml => "malformed rudoers TODO: display error span"@,
            RudoError::NotInRudoers => "user is not in the rudoers file! >:C"@,
            RudoError::NoSwitchEntry => "not allowed to run as that user! >:C"@,
            RudoError::UnknownError => "unknown error"@,
            RudoError::BadHostname => "bad hostname"@,
            RudoError::BadUsername => "bad username"@,
            RudoError::BadGroupname => "bad groupname"@,
        }
    }

    /// The text shown for this error: its message followed by a line break.
    pub open spec fn rendered_spec(self) -> Seq<char> {
        self.message_spec() + "\n"@
    }

    /// Returns the fixed message of this kind.
    pub fn message(&self) -> (text: &'static str)
        ensures
            text@ == self.message_spec(),
    {
        match self {
            RudoError::AuthenticationError => "incorrect password",
            RudoError::NoCommandSpecified => "no command specified",
            RudoError::CommandNotFound => "command not found",
            RudoError::PermissionDenied => "permission denied :)",
            RudoError::MalformedRudoersToml => "malformed rudoers TODO: display error span",
            RudoError::NotInRudoers => "user is not in the rudoers file! >:C",
            RudoError::NoSwitchEntry => "not allowed to run as that user! >:C",
            RudoError::UnknownError => "unknown error",
            RudoError::BadHostname => "bad hostname",
            RudoError::BadUsername => "bad username",
            RudoError::BadGroupname => "bad groupname",
        }
    }

    /// Renders the error as it is reported: the message and a trailing line
    /// break.
    pub fn to_string(&self) -> (text: String)
        ensures
            text@ == self.rendered_spec(),
    {
        String::from_str(self.message()).concat("\n")
    }
}

} // verus!
