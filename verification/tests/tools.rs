use phux_core_logic::companion::{find_mcp, is_executable, mcp_executable_name, FileFacts};
use phux_core_logic::diagnostic_tools::{
    doctor_schema, finish_checked, owns, plan_call, run_diagnostic, schemas, status_schema,
    ArgValue, ToolArgs,
};
use phux_core_logic::layout::TerminalId;
use phux_core_logic::mcp::{command_for, exec_failed, run, Launch};
use phux_core_logic::report_state::{
    connected, exit_status, parse_state, replied, start, Action, Reply, Report,
    ReportedAgentState, EXIT_FAILURE, EXIT_SUCCESS,
};
use phux_core_logic::spacer::{factory, SpacerWidget, WidgetError};

#[test]
fn the_diagnostics_are_distinct_tools_with_no_action_multiplexer() {
    let schemas = schemas();
    let names: Vec<&str> = schemas.iter().map(|schema| schema.name).collect();
    assert_eq!(names, vec!["phux_status", "phux_doctor"]);
    for schema in &schemas {
        assert!(!schema.additional_properties);
        assert!(
            schema.properties.iter().all(|p| p.name != "action"),
            "{} multiplexes on `action`",
            schema.name,
        );
        assert!(schema.required.is_empty());
        let properties: Vec<&str> = schema.properties.iter().map(|p| p.name).collect();
        assert_eq!(properties, vec!["socket"], "{} widened past `socket`", schema.name);
        assert!(owns(schema.name));
    }
}

#[test]
fn the_descriptions_state_the_answer_not_error_rule() {
    let status = status_schema().description;
    assert!(status.contains("A STOPPED SERVER IS AN ANSWER, NOT AN ERROR"), "{status}");
    assert!(status.contains("branch on `running`"), "{status}");
    assert!(
        status.contains("MAY BE NULL ON A RUNNING SERVER"),
        "a null pid must not read as \"no server\": {status}",
    );
    assert!(status.contains("never auto-starts"), "{status}");

    let doctor = doctor_schema().description;
    assert!(doctor.contains("A FAILING CHECK IS AN ANSWER, NOT AN ERROR"), "{doctor}");
    assert!(
        doctor.contains("READ EVERY ROW, NOT THE FIRST"),
        "the co-occurring server-health rows must be stated: {doctor}",
    );
    assert!(doctor.contains("READ-ONLY"), "{doctor}");
    assert!(
        doctor.contains("relay it, do not run it"),
        "the hints name remedies that restart services: {doctor}",
    );
}

fn text(name: &str, value: &str) -> ToolArgs {
    ToolArgs::Object(vec![(name.to_owned(), ArgValue::Text(value.to_owned()))])
}

fn other(name: &str) -> ToolArgs {
    ToolArgs::Object(vec![(name.to_owned(), ArgValue::Other)])
}

#[test]
fn each_tool_plans_the_canonical_argv() {
    let call = plan_call("phux_status", &text("socket", "/sock")).unwrap();
    assert_eq!(call.verb, "status");
    assert_eq!(call.argv, ["status", "--json", "--socket", "/sock"]);
    let call = plan_call("phux_doctor", &ToolArgs::Object(Vec::new())).unwrap();
    assert_eq!(call.argv, ["doctor", "--json"]);
}

#[test]
fn malformed_arguments_are_refused_before_anything_runs() {
    let message = |name: &str, args: &ToolArgs| plan_call(name, args).unwrap_err().message;
    assert_eq!(message("phux_status", &text("target", "@1")), "unknown argument: target");
    assert_eq!(message("phux_doctor", &other("json")), "unknown argument: json");
    assert_eq!(message("phux_status", &text("action", "status")), "unknown argument: action");
    assert_eq!(message("phux_doctor", &other("socket")), "socket must be a string");
    assert_eq!(message("phux_status", &ToolArgs::NotAnObject), "arguments must be an object");
    assert_eq!(
        message("phux_diagnose", &ToolArgs::Object(Vec::new())),
        "unknown diagnostic tool: phux_diagnose"
    );
    assert!(!owns("phux_diagnose"));
}

#[test]
fn a_printed_document_is_handed_back_whatever_the_exit() {
    let doc = "{\"schema_version\":1,\"running\":false}\n";
    assert_eq!(run_diagnostic("status", doc.to_owned(), "").unwrap(), doc);
}

#[test]
fn a_failure_without_a_document_reports_standard_error() {
    let said = "{\"error\":{\"code\":\"server_disconnected\"}}\n";
    let e = run_diagnostic("doctor", " \n".to_owned(), said).unwrap_err();
    assert_eq!(e.message, said.trim());
    let e = run_diagnostic("status", String::new(), "  ").unwrap_err();
    assert_eq!(e.message, "phux status --json exited without printing a document");
}

#[test]
fn malformed_output_is_quoted() {
    let e = run_diagnostic("status", "{\"a\"\n".to_owned(), "").unwrap_err();
    let complaint = serde_json::from_str::<serde_json::Value>("{\"a\"\n").unwrap_err();
    assert_eq!(
        e.message,
        format!("phux status --json returned malformed JSON: {complaint}; stdout=\"{{\\\"a\\\"\\n\"")
    );
    let e = finish_checked("doctor", "x".to_owned(), "", Some("odd".to_owned())).unwrap_err();
    assert_eq!(e.message, "phux doctor --json returned malformed JSON: odd; stdout=\"x\"");
    assert_eq!(finish_checked("doctor", "x".to_owned(), "", None).unwrap(), "x");
}

#[test]
fn a_spacer_takes_no_natural_width() {
    assert!(SpacerWidget.render().cells.is_empty());
}

#[test]
fn a_spacer_fills_exactly_the_budget_it_is_given() {
    let cells = SpacerWidget.render_within(7).cells;
    assert_eq!(cells.len(), 7);
    assert!(
        cells.iter().all(|c| c.text.is_empty() || c.text[0] == ' '),
        "a spacer paints blanks, not glyphs",
    );
    assert!(
        cells.iter().all(|c| c.style.is_none()),
        "cells stay unstyled so a `style` table can fill the gap",
    );
}

#[test]
fn a_zero_budget_renders_nothing() {
    assert!(SpacerWidget.render_within(0).cells.is_empty());
}

#[test]
fn a_spacer_declares_itself_elastic() {
    assert!(SpacerWidget::default().elastic());
}

#[test]
fn the_factory_takes_no_options() {
    factory(&Vec::new()).expect("a bare spacer builds");
    let err = factory(&vec!["width".to_owned()]).expect_err("spacer has no options");
    let WidgetError::InvalidOption { kind, message } = err;
    assert_eq!(kind, "spacer");
    assert!(message.contains("unknown option"), "got {message}");
    assert_eq!(message, "unknown option `width`");
}

#[test]
fn a_sibling_wins_and_the_path_is_the_fallback() {
    let on_path = || vec!["/path/a", "/path/b", "/path/c"];
    let found = find_mcp(Some("/bin/phux-mcp"), on_path(), |_: &&str| true);
    assert_eq!(found, Some("/bin/phux-mcp"));
    let found = find_mcp(Some("/bin/phux-mcp"), on_path(), |p: &&str| p.ends_with('b'));
    assert_eq!(found, Some("/path/b"));
    let found = find_mcp(None, on_path(), |_: &&str| true);
    assert_eq!(found, Some("/path/a"));
    assert_eq!(find_mcp(Some("/bin/phux-mcp"), on_path(), |_: &&str| false), None);
}

#[test]
fn an_executable_is_a_file_with_an_execute_bit() {
    let facts = |is_file, mode| Some(FileFacts { is_file, mode });
    assert!(is_executable(facts(true, Some(0o100_755))));
    assert!(is_executable(facts(true, Some(0o010))));
    assert!(!is_executable(facts(true, Some(0o100_644))));
    assert!(!is_executable(facts(false, Some(0o755))));
    assert!(is_executable(facts(true, None)));
    assert!(!is_executable(None));
    assert_eq!(mcp_executable_name(false), "phux-mcp");
    assert_eq!(mcp_executable_name(true), "phux-mcp.exe");
}

#[test]
fn the_launcher_hands_its_arguments_on() {
    let args = vec!["--schema", "--future-option=value"];
    let command = command_for("/tmp/phux-mcp", args.clone());
    assert_eq!(command.program, "/tmp/phux-mcp");
    assert_eq!(command.args, args);
    match run(Some("/tmp/phux-mcp"), args.clone()) {
        Launch::Exec(command) => assert_eq!(command.args, args),
        Launch::Fail { .. } => panic!("expected an exec"),
    }
    match run::<&str, &str>(None, args) {
        Launch::Fail { message, status } => {
            assert_eq!(status, 127);
            assert!(message.ends_with("reinstall phux so both release binaries are present"));
        }
        Launch::Exec(_) => panic!("nothing was found"),
    }
    assert_eq!(
        exec_failed("/tmp/phux-mcp", "gone"),
        ("phux: could not exec /tmp/phux-mcp: gone".to_owned(), 126)
    );
}

#[test]
fn a_report_is_refused_or_accepted() {
    assert_eq!(parse_state("working"), Some(ReportedAgentState::Working));
    assert_eq!(parse_state("blocked"), Some(ReportedAgentState::Blocked));
    assert_eq!(parse_state("done"), Some(ReportedAgentState::Done));
    assert_eq!(parse_state("Done"), None);
    assert!(matches!(start("idle"), Err(EXIT_FAILURE)));
    assert!(matches!(start("done"), Ok(Report::Connecting(ReportedAgentState::Done))));

    let pane = TerminalId::local(3);
    let (report, action) = connected(ReportedAgentState::Done, pane, true);
    assert!(matches!(report, Report::Asked));
    match action {
        Action::Send { request_id, pane: p, state } => {
            assert_eq!((request_id, p, state), (100, pane, ReportedAgentState::Done));
        }
        _ => panic!("expected a request"),
    }
    assert_eq!(exit_status(EXIT_SUCCESS, &report), EXIT_SUCCESS);

    let (report, action) = connected(ReportedAgentState::Done, pane, false);
    assert!(matches!(action, Action::Complain(_)));
    assert_eq!(exit_status(EXIT_SUCCESS, &report), EXIT_FAILURE);
    assert_eq!(exit_status(3, &report), 3);

    let (report, action) = replied(Reply::Accepted);
    assert!(matches!(action, Action::Finish));
    assert_eq!(exit_status(EXIT_SUCCESS, &report), EXIT_SUCCESS);

    let refused = Reply::Refused { code: "Denied".to_owned(), message: "no".to_owned() };
    let (report, action) = replied(refused);
    match action {
        Action::Complain(text) => {
            assert_eq!(text, "phux: agent state report refused (Denied): no");
        }
        _ => panic!("expected a complaint"),
    }
    assert_eq!(exit_status(EXIT_SUCCESS, &report), EXIT_FAILURE);
    let (report, _) = replied(Reply::Unexpected);
    assert_eq!(exit_status(EXIT_SUCCESS, &report), EXIT_FAILURE);
}
