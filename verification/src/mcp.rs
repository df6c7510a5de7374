//! The launcher of the bundled MCP adapter.
use vstd::prelude::*;
use vstd::string::*;

verus! {

/// A program and its arguments.
#[derive(Debug, PartialEq, Eq)]
pub struct CommandLine<P, A> {
    pub program: P,
    pub args: Vec<A>,
}

/// The adapter's command line: the delegated arguments as they are, in order.
pub fn command_for<P, A>(program: P, args: Vec<A>) -> (c: CommandLine<P, A>)
    ensures
        c.program == program,
        c.args@ == args@,
{
    CommandLine { program, args }
}

/// What the launcher does.
#[derive(Debug, PartialEq, Eq)]
pub enum Launch<P, A> {
    /// Replace the process.
    Exec(CommandLine<P, A>),
    /// Say why not and exit with this status.
    Fail { message: String, status: u8 },
}

/// Replace the process with the adapter that was found, or fail as the shell
/// does for a command that is not found.
pub fn run<P, A>(found: Option<P>, args: Vec<A>) -> (launch: Launch<P, A>)
    ensures
        match found {
            Some(program) => launch matches Launch::Exec(c) && c.program == program && c.args@
                == args@,
            None => launch matches Launch::Fail { message, status } && status == 127 && message@
                == "phux: could not find the bundled phux-mcp executable beside phux or on PATH\nremedy: reinstall phux so both release binaries are present"@,
        },
{
    match found {
        Some(program) => Launch::Exec(command_for(program, args)),
        None => Launch::Fail {
            message:
                "phux: could not find the bundled phux-mcp executable beside phux or on PATH\nremedy: reinstall phux so both release binaries are present".to_owned(),
            status: 127,
        },
    }
}

/// What to say, and the status to exit with, when the adapter that was found
/// could not be run after all.
pub fn exec_failed(program: &str, error: &str) -> (fail: (String, u8))
    ensures
        fail.0@ == "phux: could not exec "@ + program@ + ": "@ + error@,
        fail.1 == 126,
{
    let mut message = "phux: could not exec ".to_owned();
    message.append(program);
    message.append(": ");
    message.append(error);
    (message, 126)
}

} // verus!
