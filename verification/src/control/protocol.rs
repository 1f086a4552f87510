//! Control protocol messages.

use vstd::prelude::*;

use crate::error::control_code;
use crate::error::ControlError;
use crate::error::is_control_message;
use crate::text::chars_of;
use crate::text::string_from_chars;

verus! {

/// The body of an `error` message.
#[derive(Debug, Clone)]
pub struct ErrorMsg {
    pub code: String,
    pub message: String,
}

/// The error frame that answers a failed request: the error's wire code
/// and its message.
pub fn error_response(e: &ControlError) -> (r: ErrorMsg)
    ensures
        r.code@ == control_code(e),
        is_control_message(e, r.message@),
{
    let code = e.code();
    let message = e.message();
    ErrorMsg { code: string_from_chars(&chars_of(code)), message }
}

} // verus!
