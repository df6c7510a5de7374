//! The two read-only diagnostic tools: `phux_status` and `phux_doctor`.
//!
//! Both run the canonical command-line verb of the same name and hand back the
//! document it prints. A non-zero exit is an answer here: what tells a document
//! from a failure is whether anything was printed, not the exit status.
use vstd::prelude::*;
use vstd::string::*;

use crate::text::{debug_quoted, quoted, same_text, string_of, texts, trim, trimmed};

verus! {

/// The exit status that both verbs spend on a result rather than a failure.
pub const EXIT_ANSWERED: i32 = 1;

/// The description of the `socket` argument.
pub const SOCKET_DESC: &'static str = "Override the UDS path of the server to diagnose. Defaults to PHUX_SOCKET or the daemon default.";

/// What a tool answers when it fails.
#[derive(Debug, PartialEq, Eq)]
pub struct ToolError {
    pub message: String,
}

/// One argument of a tool, a string of bounded length.
#[derive(Debug, PartialEq, Eq)]
pub struct PropertySchema {
    pub name: &'static str,
    pub kind: &'static str,
    pub min_length: u32,
    pub max_length: u32,
    pub description: &'static str,
}

/// A tool as it is advertised.
#[derive(Debug, PartialEq, Eq)]
pub struct ToolSchema {
    pub name: &'static str,
    pub description: &'static str,
    pub properties: Vec<PropertySchema>,
    pub required: Vec<String>,
    pub additional_properties: bool,
}

/// The description of `phux_status`.
pub const STATUS_DESC: &'static str = "Report the server behind one socket: whether it is running, its pid, when it bound the socket, the negotiated protocol version, attached-client and session counts, satellite panes, unreachable satellites, and the log paths to read next. READ-ONLY, and it never auto-starts a server \u{2014} asking whether a server is running may not create one. A STOPPED SERVER IS AN ANSWER, NOT AN ERROR: the CLI exits non-zero and this tool still returns the document, so branch on `running`, never on whether the call succeeded. When `running` is false the document also carries `error` {code, message} and `remedy` from the same closed vocabulary every other phux JSON verb uses. `pid` MAY BE NULL ON A RUNNING SERVER \u{2014} it comes from the socket's peer credentials rather than from the server itself \u{2014} so never read a null pid as \"no server\"; `running` is the only field that answers that. `unreachable` is always present and empty means the fleet view is complete. This describes one server at one socket. Use phux_doctor for the wider question of whether the install is healthy: crash-looping, version-skewed, or supervised by a legacy unit.";

/// The description of `phux_doctor`.
pub const DOCTOR_DESC: &'static str = "Run every phux health check and return the whole report: config parse, instance/profile isolation, socket path length, server reachability, server-health, plugin manifests, the agent shim, and log paths. This is the same code path as `phux doctor`, so the two can never disagree about whether the install is healthy. READ-ONLY \u{2014} a diagnostic that repairs things is a diagnostic nobody can trust \u{2014} and it starts nothing. A FAILING CHECK IS AN ANSWER, NOT AN ERROR: the CLI exits non-zero when any check failed and this tool still returns the document, so branch on `ok` and on each check's `status`, never on whether the call succeeded. Result: `{schema_version, ok, failed, checks: [{name, status, detail, hint}]}` with `status` one of `pass`, `warn`, `fail`. READ EVERY ROW, NOT THE FIRST: check names are NOT unique. `server-health` reports one row per condition that holds \u{2014} a crash-loop (the server restarted repeatedly inside the start-history window), a legacy supervisor unit that restarts on every exit unthrottled, and version skew between the running server and this binary \u{2014} and those co-occur more than they don't, because a legacy unit is exactly what turns a dying server into a crash-loop. `warn` means a check could not be verified or does not apply right now, and is deliberately NOT a pass: a stopped server warns rather than failing, because that is a normal state and not a broken install. Every `warn` and `fail` carries a `hint` naming the remedy; relay it, do not run it \u{2014} the remedies restart supervised services and rewrite units on the human's machine. Only the socket and server checks follow `socket`; everything else describes the machine this adapter is running on.";

/// The schema takes the optional `socket` and nothing else.
pub open spec fn takes_only_socket(s: ToolSchema) -> bool {
    &&& s.properties@.len() == 1
    &&& s.properties@[0].name@ == "socket"@
    &&& s.properties@[0].kind@ == "string"@
    &&& s.properties@[0].min_length == 1
    &&& s.properties@[0].max_length == 4096
    &&& s.properties@[0].description@ == SOCKET_DESC@
    &&& s.required@.len() == 0
    &&& !s.additional_properties
}

fn socket_only(name: &'static str, description: &'static str) -> (s: ToolSchema)
    ensures
        s.name@ == name@,
        s.description@ == description@,
        takes_only_socket(s),
{
    let mut properties: Vec<PropertySchema> = Vec::new();
    properties.push(
        PropertySchema {
            name: "socket",
            kind: "string",
            min_length: 1,
            max_length: 4096,
            description: SOCKET_DESC,
        },
    );
    ToolSchema { name, description, properties, required: Vec::new(), additional_properties: false }
}

/// The schema of `phux_status`.
pub fn status_schema() -> (s: ToolSchema)
    ensures
        s.name@ == "phux_status"@,
        s.description@ == STATUS_DESC@,
        takes_only_socket(s),
{
    socket_only("phux_status", STATUS_DESC)
}

/// The schema of `phux_doctor`.
pub fn doctor_schema() -> (s: ToolSchema)
    ensures
        s.name@ == "phux_doctor"@,
        s.description@ == DOCTOR_DESC@,
        takes_only_socket(s),
{
    socket_only("phux_doctor", DOCTOR_DESC)
}

/// Every schema of this family, in catalog order.
pub fn schemas() -> (all: Vec<ToolSchema>)
    ensures
        all@.len() == 2,
        all@[0].name@ == "phux_status"@,
        all@[0].description@ == STATUS_DESC@,
        all@[1].name@ == "phux_doctor"@,
        all@[1].description@ == DOCTOR_DESC@,
        forall|i: int| 0 <= i < 2 ==> takes_only_socket(#[trigger] all@[i]),
{
    let mut all: Vec<ToolSchema> = Vec::new();
    all.push(status_schema());
    all.push(doctor_schema());
    all
}

/// The verb that a tool runs.
pub open spec fn verb_of(name: Seq<char>) -> Option<Seq<char>> {
    if name == "phux_status"@ {
        Some("status"@)
    } else if name == "phux_doctor"@ {
        Some("doctor"@)
    } else {
        None
    }
}

/// Whether `name` belongs to this family.
pub fn owns(name: &str) -> (b: bool)
    ensures
        b == (verb_of(name@) is Some),
{
    same_text(name, "phux_status") || same_text(name, "phux_doctor")
}

/// One argument of a call: a text, or a value of another type.
#[derive(Debug, PartialEq, Eq)]
pub enum ArgValue {
    Text(String),
    Other,
}

/// The arguments of a call: named values, or no object at all.
#[derive(Debug, PartialEq, Eq)]
pub enum ToolArgs {
    Object(Vec<(String, ArgValue)>),
    NotAnObject,
}

/// What is wrong with the arguments of a call that takes only `socket`: they are
/// no object, or the first other name, or a socket that is no text.
pub open spec fn args_error(args: ToolArgs) -> Option<Seq<char>> {
    match args {
        ToolArgs::NotAnObject => Some("arguments must be an object"@),
        ToolArgs::Object(entries) => match first_unknown(entries@) {
            Some(name) => Some("unknown argument: "@ + name),
            None => match socket_value(entries@) {
                Some(ArgValue::Other) => Some("socket must be a string"@),
                _ => None,
            },
        },
    }
}

/// The first name that is not `socket`.
pub open spec fn first_unknown(entries: Seq<(String, ArgValue)>) -> Option<Seq<char>>
    decreases entries.len(),
{
    if entries.len() == 0 {
        None
    } else if entries[0].0@ != "socket"@ {
        Some(entries[0].0@)
    } else {
        first_unknown(entries.drop_first())
    }
}

/// The value of `socket`, where every name is `socket`.
pub open spec fn socket_value(entries: Seq<(String, ArgValue)>) -> Option<ArgValue> {
    if entries.len() == 0 {
        None
    } else {
        Some(entries[0].1)
    }
}

/// The socket that good arguments name.
pub open spec fn socket_of(args: ToolArgs) -> Option<Seq<char>> {
    match args {
        ToolArgs::Object(entries) => match socket_value(entries@) {
            Some(ArgValue::Text(t)) => Some(t@),
            _ => None,
        },
        ToolArgs::NotAnObject => None,
    }
}

/// The command line of a verb: `<verb> --json`, with the socket where one is
/// named.
pub open spec fn canonical_argv(verb: Seq<char>, socket: Option<Seq<char>>) -> Seq<Seq<char>> {
    match socket {
        Some(path) => seq![verb, "--json"@, "--socket"@, path],
        None => seq![verb, "--json"@],
    }
}

/// A planned call.
#[derive(Debug, PartialEq, Eq)]
pub struct DiagnosticCall {
    /// The verb to run.
    pub verb: &'static str,
    /// The arguments to run it with, the verb first.
    pub argv: Vec<String>,
}

fn error(message: String) -> (e: ToolError)
    ensures
        e.message == message,
{
    ToolError { message }
}

/// Check the arguments and give the socket they name, if any.
fn check_args(args: &ToolArgs) -> (r: Result<Option<String>, ToolError>)
    ensures
        match r {
            Ok(socket) => args_error(*args) is None && socket_of(*args) == (match socket {
                Some(t) => Some(t@),
                None => None,
            }),
            Err(e) => args_error(*args) == Some(e.message@),
        },
{
    let entries = match args {
        ToolArgs::Object(entries) => entries,
        ToolArgs::NotAnObject => {
            return Err(error("arguments must be an object".to_owned()));
        },
    };
    let mut i: usize = 0;
    proof {
        assert(entries@.skip(0) =~= entries@);
    }
    while i < entries.len()
        invariant
            i <= entries.len(),
            *args == ToolArgs::Object(*entries),
            first_unknown(entries@) == first_unknown(entries@.skip(i as int)),
        decreases entries.len() - i,
    {
        proof {
            assert(entries@.skip(i as int)[0] == entries@[i as int]);
            assert(entries@.skip(i as int).drop_first() =~= entries@.skip(i + 1));
        }
        if !same_text(entries[i].0.as_str(), "socket") {
            let mut message = "unknown argument: ".to_owned();
            message.append(entries[i].0.as_str());
            return Err(error(message));
        }
        i = i + 1;
    }
    if entries.len() == 0 {
        return Ok(None);
    }
    match &entries[0].1 {
        ArgValue::Text(t) => Ok(Some(t.clone())),
        ArgValue::Other => Err(error("socket must be a string".to_owned())),
    }
}

/// Plan a call of a diagnostic tool. Everything about it is checked before
/// anything is run.
pub fn plan_call(name: &str, args: &ToolArgs) -> (r: Result<DiagnosticCall, ToolError>)
    ensures
        match verb_of(name@) {
            None => r matches Err(e) && e.message@ == "unknown diagnostic tool: "@ + name@,
            Some(verb) => match args_error(*args) {
                Some(what) => r matches Err(e) && e.message@ == what,
                None => r matches Ok(call) && call.verb@ == verb && texts(call.argv@)
                    == canonical_argv(verb, socket_of(*args)),
            },
        },
{
    let verb = if same_text(name, "phux_status") {
        "status"
    } else if same_text(name, "phux_doctor") {
        "doctor"
    } else {
        let mut message = "unknown diagnostic tool: ".to_owned();
        message.append(name);
        return Err(error(message));
    };
    let socket = match check_args(args) {
        Ok(socket) => socket,
        Err(e) => {
            return Err(e);
        },
    };
    let mut argv: Vec<String> = Vec::new();
    argv.push(verb.to_owned());
    argv.push("--json".to_owned());
    match socket {
        Some(path) => {
            argv.push("--socket".to_owned());
            argv.push(path);
        },
        None => {},
    }
    proof {
        assert(texts(argv@) =~= canonical_argv(verb@, socket_of(*args)));
    }
    Ok(DiagnosticCall { verb, argv })
}

/// What `serde_json` has against a text as a JSON document, if anything.
pub uninterp spec fn json_complaint(text: Seq<char>) -> Option<Seq<char>>;

/// `serde_json::from_str` into a `serde_json::Value`: whether the text is one JSON
/// document, and the `Display` text of the error where it is not. It depends on
/// the text alone.
#[verifier::external_body]
fn check_json(text: &str) -> (complaint: Option<String>)
    ensures
        match complaint {
            Some(what) => json_complaint(text@) == Some(what@),
            None => json_complaint(text@) is None,
        },
{
    match serde_json::from_str::<serde_json::Value>(text) {
        Ok(_) => None,
        Err(error) => Some(error.to_string()),
    }
}

/// `r` is what a finished run comes to, given what JSON has against its output:
/// the printed document as it is; where nothing was printed, what was said on
/// standard error; where something else was printed, a complaint that quotes it.
pub open spec fn finishes(
    verb: Seq<char>,
    stdout: Seq<char>,
    stderr: Seq<char>,
    complaint: Option<Seq<char>>,
    r: Result<String, ToolError>,
) -> bool {
    if trimmed(stdout).len() == 0 {
        r matches Err(e) && e.message@ == (if trimmed(stderr).len() == 0 {
            "phux "@ + verb + " --json exited without printing a document"@
        } else {
            trimmed(stderr)
        })
    } else {
        match complaint {
            None => r matches Ok(doc) && doc@ == stdout,
            Some(what) => r matches Err(e) && e.message@ == "phux "@ + verb
                + " --json returned malformed JSON: "@ + what + "; stdout="@ + quoted(stdout),
        }
    }
}

/// What a finished run comes to, given what JSON has against its output.
pub fn finish_checked(
    verb: &str,
    stdout: String,
    stderr: &str,
    complaint: Option<String>,
) -> (r: Result<String, ToolError>)
    ensures
        finishes(
            verb@,
            stdout@,
            stderr@,
            match complaint {
                Some(c) => Some(c@),
                None => None,
            },
            r,
        ),
{
    if trim(stdout.as_str()).len() == 0 {
        let said = trim(stderr);
        return Err(
            error(
                if said.len() == 0 {
                    let mut message = "phux ".to_owned();
                    message.append(verb);
                    message.append(" --json exited without printing a document");
                    message
                } else {
                    string_of(&said)
                },
            ),
        );
    }
    match complaint {
        None => Ok(stdout),
        Some(what) => {
            let mut message = "phux ".to_owned();
            message.append(verb);
            message.append(" --json returned malformed JSON: ");
            message.append(what.as_str());
            message.append("; stdout=");
            let shown = debug_quoted(stdout.as_str());
            message.append(shown.as_str());
            Err(error(message))
        },
    }
}

/// What a finished run of a diagnostic verb comes to: its document, or why there
/// is none.
pub fn run_diagnostic(verb: &str, stdout: String, stderr: &str) -> (r: Result<String, ToolError>)
    ensures
        finishes(verb@, stdout@, stderr@, json_complaint(stdout@), r),
{
    let complaint = check_json(stdout.as_str());
    finish_checked(verb, stdout, stderr, complaint)
}

} // verus!
