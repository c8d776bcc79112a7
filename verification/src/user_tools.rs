//! Tools that talk to the user or read the clock: the texts they show and
//! the values they fall back on. Printing, reading input and the clock are
//! the caller's.
use vstd::prelude::*;
use vstd::string::StringExecFns;
use crate::text::{trim, trim_ws};

verus! {

/// Shows a message to the user without waiting for an answer.
#[derive(Debug, Clone, Copy)]
pub struct TellUserTool;

impl TellUserTool {
    pub fn new() -> (t: Self) {
        TellUserTool
    }

    /// What is printed for a message.
    pub fn display_text(&self, message: &str) -> (s: String)
        ensures
            s@ == "\n\n\nMESSAGE FROM ASSISTANT:\n"@ + message@,
    {
        let mut s = String::from_str("\n\n\nMESSAGE FROM ASSISTANT:\n");
        s.append(message);
        s
    }

    /// The tool's result once the message is shown.
    pub fn result_text(&self) -> (s: String)
        ensures
            s@ == "Message delivered to user."@,
    {
        String::from_str("Message delivered to user.")
    }
}

impl Default for TellUserTool {
    fn default() -> (t: Self) {
        TellUserTool
    }
}

/// Asks the user for help and returns the answer.
#[derive(Debug, Clone, Copy)]
pub struct AskUserTool;

impl AskUserTool {
    pub fn new() -> (t: Self) {
        AskUserTool
    }

    /// What is printed before reading the answer.
    pub fn prompt_text(&self, request: &str) -> (s: String)
        ensures
            s@ == "\n\n\nI NEED YOUR HELP!\n"@ + request@,
    {
        let mut s = String::from_str("\n\n\nI NEED YOUR HELP!\n");
        s.append(request);
        s
    }

    /// The answer as returned: the line read, without surrounding white space.
    pub fn answer(&self, line: &str) -> (s: String)
        ensures
            s@ == trim_ws(line@),
    {
        trim(line)
    }
}

impl Default for AskUserTool {
    fn default() -> (t: Self) {
        AskUserTool
    }
}

/// Reports the current date and time.
#[derive(Debug, Clone, Copy)]
pub struct CurrentDatetimeTool;

impl CurrentDatetimeTool {
    pub fn new() -> (t: Self) {
        CurrentDatetimeTool
    }

    /// The format the time is shown in: the requested one, else
    /// `%Y-%m-%d %H:%M:%S`.
    pub fn format_string(&self, requested: Option<&str>) -> (s: String)
        ensures
            s@ == match requested {
                Some(f) => f@,
                None => "%Y-%m-%d %H:%M:%S"@,
            },
    {
        match requested {
            Some(f) => String::from_str(f),
            None => String::from_str("%Y-%m-%d %H:%M:%S"),
        }
    }
}

impl Default for CurrentDatetimeTool {
    fn default() -> (t: Self) {
        CurrentDatetimeTool
    }
}

} // verus!
