//! What the installed routine answers when the routine it replaced is
//! called, and what it reports of the call.

use crate::error::AppError;
use crate::logger::LogLevel;
use vstd::prelude::*;
use vstd::string::*;

verus! {

/// The value that the installed routine returns to the callers of the
/// routine it replaced.
pub const BYPASS_SUCCESS: usize = 1;

/// The answer to one intercepted call: the value to return, and the line to
/// log.
#[derive(Debug)]
pub struct Verdict {
    pub return_value: usize,
    pub level: LogLevel,
    pub message: String,
}

/// The line reported for a call whose file name could be read.
pub open spec fn verified_line(name: Seq<char>) -> Seq<char> {
    "Verifying pak: '"@ + name + "' -> OK"@
}

/// The line reported for a call whose file name could not be read, from
/// the text of the error.
pub open spec fn unreadable_line(error_text: Seq<char>) -> Seq<char> {
    "Could not read pak name: "@ + error_text + ", but returning true anyway"@
}

/// The answer to an intercepted call, given the file name that the call
/// was made for or the error that kept it from being read. A name that
/// could not be read changes the report and nothing else: the value
/// returned is the same.
pub fn verdict(name: Result<String, AppError>) -> (r: Verdict)
    ensures
        r.return_value == BYPASS_SUCCESS,
        match name {
            Ok(text) => r.level == LogLevel::Info && r.message@ == verified_line(text@),
            Err(e) => r.level == LogLevel::Bypass && exists|text: Seq<char>|
                {
                    &&& r.message@ == #[trigger] unreadable_line(text)
                    &&& !e@.has_source() ==> text == e@.text()
                    &&& e@.has_source() ==> e@.text().is_prefix_of(text)
                },
        },
{
    match name {
        Ok(text) => {
            let mut message = String::from_str("Verifying pak: '");
            message.append(text.as_str());
            message.append("' -> OK");
            Verdict { return_value: BYPASS_SUCCESS, level: LogLevel::Info, message }
        },
        Err(e) => {
            let mut message = String::from_str("Could not read pak name: ");
            let text = e.message();
            message.append(text.as_str());
            message.append(", but returning true anyway");
            assert(message@ == unreadable_line(text@));
            Verdict { return_value: BYPASS_SUCCESS, level: LogLevel::Bypass, message }
        },
    }
}

} // verus!
