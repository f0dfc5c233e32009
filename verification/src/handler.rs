//! What the shell does with a line of input.

use vstd::prelude::*;
use vstd::utf8::encode_utf8_decode_utf8;
use crate::bytes::same_bytes;

verus! {

#[derive(Default, Copy, Clone, Eq, PartialEq)]
pub struct GauloiAsyncHandler;

/// What a line of input asks for.
#[derive(Debug, Clone, Copy, PartialEq, Eq, Structural)]
pub enum Dispatch {
    /// Nothing: the line is empty.
    Idle,
    /// Leave the shell.
    Quit,
    /// Show the help.
    Help,
    /// Run the command that the first word names.
    Run,
}

/// Whether two texts are the same.
pub fn same_text(a: &str, b: &str) -> (r: bool)
    ensures
        r == (a@ == b@),
{
    proof {
        encode_utf8_decode_utf8(a@);
        encode_utf8_decode_utf8(b@);
    }
    same_bytes(a.as_bytes(), b.as_bytes())
}

impl GauloiAsyncHandler {
    /// What the words of a line ask for.
    pub open spec fn spec_handle(line: Seq<String>) -> Dispatch {
        if line.len() == 0 {
            Dispatch::Idle
        } else if line[0]@ == "quit"@ || line[0]@ == "q"@ {
            Dispatch::Quit
        } else if line[0]@ == "help"@ || line[0]@ == "h"@ {
            Dispatch::Help
        } else {
            Dispatch::Run
        }
    }

    /// What the words of a line ask for: `quit` or `q` leaves the shell,
    /// `help` or `h` shows the help, any other first word names a
    /// command.
    pub fn handle_async(&self, line: &Vec<String>) -> (r: Dispatch)
        ensures
            r == Self::spec_handle(line@),
    {
        if line.len() == 0 {
            return Dispatch::Idle;
        }
        let command_str = line[0].as_str();
        if same_text(command_str, "quit") || same_text(command_str, "q") {
            Dispatch::Quit
        } else if same_text(command_str, "help") || same_text(command_str, "h") {
            Dispatch::Help
        } else {
            Dispatch::Run
        }
    }
}

} // verus!
