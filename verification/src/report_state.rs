//! Reporting an agent's lifecycle state to the server.
//!
//! The conversation is decided here, step by step: what to ask once connected,
//! what to make of the reply, and which status to exit with.
use vstd::prelude::*;
use vstd::string::*;

use crate::layout::TerminalId;
use crate::text::same_text;

verus! {

/// The exit status of success.
pub const EXIT_SUCCESS: u8 = 0;

/// The exit status of failure.
pub const EXIT_FAILURE: u8 = 1;

/// The id of the one request that is made.
pub const REQUEST_ID: u32 = 100;

/// A lifecycle state that can be reported.
#[derive(Debug, Clone, Copy, PartialEq, Eq, Structural)]
pub enum ReportedAgentState {
    Working,
    Blocked,
    Done,
}

/// The word for a state.
pub open spec fn word_of(state: ReportedAgentState) -> Seq<char> {
    match state {
        ReportedAgentState::Working => "working"@,
        ReportedAgentState::Blocked => "blocked"@,
        ReportedAgentState::Done => "done"@,
    }
}

/// Read a state from its word.
pub fn parse_state(word: &str) -> (state: Option<ReportedAgentState>)
    ensures
        match state {
            Some(s) => word@ == word_of(s),
            None => forall|s: ReportedAgentState| word@ != #[trigger] word_of(s),
        },
{
    if same_text(word, "working") {
        Some(ReportedAgentState::Working)
    } else if same_text(word, "blocked") {
        Some(ReportedAgentState::Blocked)
    } else if same_text(word, "done") {
        Some(ReportedAgentState::Done)
    } else {
        None
    }
}

/// The server's reply to the report.
#[derive(Debug)]
pub enum Reply {
    /// Accepted, with or without a payload.
    Accepted,
    /// Refused, with the error code as the server names it and its message.
    Refused { code: String, message: String },
    /// Something that is no reply to a report.
    Unexpected,
}

/// Where a report stands.
#[derive(Debug)]
pub enum Report {
    /// Connecting to the pane's server.
    Connecting(ReportedAgentState),
    /// The request was sent.
    Asked,
    /// The report is over, accepted or refused.
    Over { refused: bool },
}

/// What to do after a step.
#[derive(Debug)]
pub enum Action {
    /// Send the report.
    Send { request_id: u32, pane: TerminalId, state: ReportedAgentState },
    /// Print this on standard error.
    Complain(String),
    /// Nothing.
    Finish,
}

/// Start a report of the state that `word` names. Another word exits with
/// failure, before anything is connected.
pub fn start(word: &str) -> (r: Result<Report, u8>)
    ensures
        match r {
            Ok(report) => report matches Report::Connecting(s) && word@ == word_of(s),
            Err(status) => status == EXIT_FAILURE && forall|s: ReportedAgentState|
                word@ != #[trigger] word_of(s),
        },
{
    match parse_state(word) {
        Some(state) => Ok(Report::Connecting(state)),
        None => Err(EXIT_FAILURE),
    }
}

/// The connection to the server of `pane` is up. A server that does not know the
/// report is told nothing.
pub fn connected(state: ReportedAgentState, pane: TerminalId, supported: bool) -> (step: (
    Report,
    Action,
))
    ensures
        supported ==> step.0 is Asked && step.1 == (Action::Send {
            request_id: REQUEST_ID,
            pane,
            state,
        }),
        !supported ==> {
            &&& step.0 == (Report::Over { refused: true })
            &&& step.1 matches Action::Complain(m) && m@
                == "phux: server does not support REPORT_AGENT_STATE; upgrade it"@
        },
{
    if supported {
        (Report::Asked, Action::Send { request_id: REQUEST_ID, pane, state })
    } else {
        (
            Report::Over { refused: true },
            Action::Complain(
                "phux: server does not support REPORT_AGENT_STATE; upgrade it".to_owned(),
            ),
        )
    }
}

/// The reply does not accept the report.
pub open spec fn refuses(reply: Reply) -> bool {
    !(reply is Accepted)
}

/// The reply has arrived.
pub fn replied(reply: Reply) -> (step: (Report, Action))
    ensures
        step.0 == (Report::Over { refused: refuses(reply) }),
        match reply {
            Reply::Accepted => step.1 is Finish,
            Reply::Refused { code, message } => {
                &&& step.1 matches Action::Complain(m) && m@ == "phux: agent state report refused ("@
                    + code@ + "): "@ + message@
            },
            Reply::Unexpected => {
                &&& step.1 matches Action::Complain(m) && m@
                    == "phux: unexpected REPORT_AGENT_STATE reply"@
            },
        },
{
    match reply {
        Reply::Accepted => (Report::Over { refused: false }, Action::Finish),
        Reply::Refused { code, message } => {
            let mut text = "phux: agent state report refused (".to_owned();
            text.append(code.as_str());
            text.append("): ");
            text.append(message.as_str());
            (Report::Over { refused: true }, Action::Complain(text))
        },
        Reply::Unexpected => (
            Report::Over { refused: true },
            Action::Complain("phux: unexpected REPORT_AGENT_STATE reply".to_owned()),
        ),
    }
}

/// The status to exit with once the connection ended in `transport`.
pub open spec fn status_of(transport: u8, report: Report) -> u8 {
    if transport == EXIT_SUCCESS && report == (Report::Over { refused: true }) {
        EXIT_FAILURE
    } else {
        transport
    }
}

/// The status to exit with: the connection's own, except that a conversation
/// that succeeded in being refused fails. A report that never got its answer
/// was not refused.
pub fn exit_status(transport: u8, report: &Report) -> (status: u8)
    ensures
        status == status_of(transport, *report),
{
    let refused = match report {
        Report::Over { refused } => *refused,
        _ => false,
    };
    if transport == EXIT_SUCCESS && refused {
        EXIT_FAILURE
    } else {
        transport
    }
}

/// A report that was answered succeeds exactly when the connection did and the
/// server accepted it.
pub proof fn law_only_an_accepted_report_succeeds(transport: u8, reply: Reply)
    ensures
        status_of(transport, Report::Over { refused: refuses(reply) }) == EXIT_SUCCESS <==>
            transport == EXIT_SUCCESS && reply is Accepted,
{
}

} // verus!
