//! GnuPG error codes and the error value that commands answer with.

use vstd::prelude::*;
use crate::text::{decimal_text, push_decimal, push_str};

verus! {

// Pre-packed libgpg-error values: (source << 24) | code.
/// Operation canceled: pinentry source (5), code 99.
pub const GPG_ERR_CANCELED: u32 = 83886179u32;

/// Not confirmed: pinentry source (5), code 114.
pub const GPG_ERR_NOT_CONFIRMED: u32 = 83886194u32;

/// Unknown IPC command: source 4, Assuan code 275.
pub const GPG_ERR_ASS_UNKNOWN_CMD: u32 = 67109139u32;

/// General IPC error: Assuan code 257.
pub const GPG_ERR_ASS_GENERAL: u32 = 83886337u32;

/// The text used in `ERR <code> <description>` lines for each known code.
pub open spec fn gpg_error_text(code: u32) -> Seq<char> {
    if code == GPG_ERR_CANCELED {
        "canceled"@
    } else if code == GPG_ERR_NOT_CONFIRMED {
        "not confirmed"@
    } else if code == GPG_ERR_ASS_UNKNOWN_CMD {
        "unknown IPC command"@
    } else if code == GPG_ERR_ASS_GENERAL {
        "general IPC error"@
    } else {
        "general error"@
    }
}

/// Returns the text description used in "ERR <code> <description>" lines.
pub fn gpg_error_string(code: u32) -> (res: &'static str)
    ensures
        res@ == gpg_error_text(code),
{
    if code == GPG_ERR_CANCELED {
        "canceled"
    } else if code == GPG_ERR_NOT_CONFIRMED {
        "not confirmed"
    } else if code == GPG_ERR_ASS_UNKNOWN_CMD {
        "unknown IPC command"
    } else if code == GPG_ERR_ASS_GENERAL {
        "general IPC error"
    } else {
        "general error"
    }
}

/// An error answer to an Assuan command: a GnuPG error code and its text.
#[derive(Debug)]
pub struct AssuanError {
    pub code: u32,
    pub message: String,
}

/// The outcome of one protocol command.
pub type CommandResult = Result<(), AssuanError>;

impl AssuanError {
    pub fn new(code: u32, message: &str) -> (res: Self)
        ensures
            res.code == code,
            res.message@ == message@,
    {
        AssuanError { code, message: message.to_owned() }
    }

    pub fn canceled() -> (res: Self)
        ensures
            res.code == GPG_ERR_CANCELED,
            res.message@ == gpg_error_text(GPG_ERR_CANCELED),
    {
        AssuanError::new(GPG_ERR_CANCELED, gpg_error_string(GPG_ERR_CANCELED))
    }

    pub fn not_confirmed() -> (res: Self)
        ensures
            res.code == GPG_ERR_NOT_CONFIRMED,
            res.message@ == gpg_error_text(GPG_ERR_NOT_CONFIRMED),
    {
        AssuanError::new(GPG_ERR_NOT_CONFIRMED, gpg_error_string(GPG_ERR_NOT_CONFIRMED))
    }

    pub fn unknown_cmd() -> (res: Self)
        ensures
            res.code == GPG_ERR_ASS_UNKNOWN_CMD,
            res.message@ == gpg_error_text(GPG_ERR_ASS_UNKNOWN_CMD),
    {
        AssuanError::new(GPG_ERR_ASS_UNKNOWN_CMD, gpg_error_string(GPG_ERR_ASS_UNKNOWN_CMD))
    }

    /// The error as text: `GPG error <code>: <message>`.
    pub fn describe(&self) -> (res: String)
        ensures
            res@ == "GPG error "@ + decimal_text(self.code as nat) + ": "@ + self.message@,
    {
        let mut text = String::new();
        push_str(&mut text, "GPG error ");
        push_decimal(&mut text, self.code);
        push_str(&mut text, ": ");
        push_str(&mut text, self.message.as_str());
        text
    }
}

} // verus!
