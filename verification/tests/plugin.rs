use phux_core_logic::loader::{
    load_plugin_manifest, normalize_action, normalize_agent, normalize_event, FieldRules,
    ManifestSource,
};
use phux_core_logic::plugin::{
    Linked, PluginAgentAttention, PluginAgentState, PluginManifestAction, PluginManifestAgent,
    PluginManifestError, PluginManifestEvent, PluginManifestPane, PluginPanePlacement,
    PluginPlatform, PluginWidgetSlot, RawPluginManifest, RawPluginManifestAction,
    RawPluginManifestAgent, RawPluginManifestBuild, RawPluginManifestEvent, RawPluginManifestPane,
    RawPluginManifestWidget,
};
use phux_core_logic::render_pool::RenderPool;

type Checked<T> = Result<T, PluginManifestError>;

fn invalid<T>(message: String) -> Checked<T> {
    Err(PluginManifestError::Invalid(message))
}

fn check_id(id: &String, qualified: bool, label: &'static str) -> Checked<String> {
    let id = id.trim();
    if id.is_empty() || (id.contains('.') && !qualified) {
        invalid(format!("bad {label}"))
    } else {
        Ok(id.to_owned())
    }
}

fn check_text(text: &String, label: &'static str) -> Checked<String> {
    let text = text.trim();
    if text.is_empty() {
        invalid(format!("empty {label}"))
    } else {
        Ok(text.to_owned())
    }
}

fn check_optional(text: &String) -> Option<String> {
    let text = text.trim();
    if text.is_empty() {
        None
    } else {
        Some(text.to_owned())
    }
}

fn check_command(command: &Vec<String>) -> Checked<Vec<String>> {
    if command.is_empty() {
        invalid("empty command".to_owned())
    } else {
        Ok(command.clone())
    }
}

fn check_floor(_id: &String, floor: &String) -> Checked<()> {
    if floor == "99.0.0" {
        invalid("too new".to_owned())
    } else {
        Ok(())
    }
}

fn check_link(link: &'static str) -> Checked<Linked<&'static str>> {
    if link == "bad" {
        invalid("bad link".to_owned())
    } else {
        Ok(Linked { id: link.to_owned(), handler: link })
    }
}

fn check_workspaces(
    raw: Vec<&'static str>,
    agents: &Vec<PluginManifestAgent>,
    actions: &Vec<PluginManifestAction>,
    events: &Vec<PluginManifestEvent>,
    panes: &Vec<PluginManifestPane>,
) -> Checked<Vec<String>> {
    if raw.contains(&"bad") {
        return invalid("bad workspace".to_owned());
    }
    let counts = (agents.len(), actions.len(), events.len(), panes.len());
    Ok(raw.into_iter().map(|w| format!("{w}{counts:?}")).collect())
}

fn s(text: &str) -> String {
    text.to_owned()
}

fn agent(id: &str) -> RawPluginManifestAgent {
    RawPluginManifestAgent {
        id: s(id),
        label: s(" Agent "),
        description: Some(s("  ")),
        state: PluginAgentState { name: s("idle") },
        attention: PluginAgentAttention { name: s("none") },
        contexts: vec![s(" pane "), s("session")],
    }
}

fn action(id: &str) -> RawPluginManifestAction {
    RawPluginManifestAction {
        id: s(id),
        title: s("Title"),
        description: None,
        contexts: Vec::new(),
        platforms: None,
        command: vec![s("run")],
        keys: Some(s(" C-x ")),
    }
}

fn event(id: &str) -> RawPluginManifestEvent {
    RawPluginManifestEvent {
        id: s(id),
        title: s("Title"),
        description: Some(s("d")),
        on: s(" pane-closed "),
        platforms: Some(Vec::new()),
        command: vec![s("run")],
    }
}

fn pane(id: &str) -> RawPluginManifestPane {
    RawPluginManifestPane {
        id: s(id),
        title: s("Title"),
        description: None,
        platforms: None,
        placement: PluginPanePlacement { name: s("split") },
        command: vec![s("run")],
    }
}

fn widget(id: &str, opts: u8) -> RawPluginManifestWidget<u8> {
    RawPluginManifestWidget {
        id: s(id),
        slot: PluginWidgetSlot { name: s("left") },
        kind: s(" text "),
        opts,
    }
}

type Raw = RawPluginManifest<&'static str, &'static str, u8>;

fn manifest() -> Raw {
    RawPluginManifest {
        id: s("org.example"),
        name: s(" Example "),
        version: s("1.0"),
        min_phux_version: s("0.1.0"),
        description: Some(s(" about ")),
        platforms: Some(vec![PluginPlatform { name: s("linux") }]),
        build: vec![RawPluginManifestBuild { platforms: None, command: vec![s("make")] }],
        agents: vec![agent("a"), agent("b")],
        actions: vec![action("a")],
        events: vec![event("e")],
        panes: vec![pane("p"), pane("q"), pane("r")],
        links: vec!["one", "two"],
        workspaces: vec!["w"],
        widgets: vec![widget("x", 1), widget("y", 2)],
    }
}

type Loaded = Checked<
    phux_core_logic::plugin::PluginManifest<&'static str, &'static str, String, u8>,
>;

fn load(raw: Result<Raw, String>, root: Option<&'static str>) -> Loaded {
    let rules = FieldRules {
        id: check_id,
        required: check_text,
        optional: check_optional,
        command: check_command,
    };
    let source = ManifestSource {
        manifest_path: "/plugins/example/phux-plugin.toml",
        plugin_root: root,
        display_path: s("example"),
        parsed: raw,
    };
    load_plugin_manifest(source, &rules, check_floor, check_link, check_workspaces)
}

fn refused(raw: Raw) -> String {
    match load(Ok(raw), Some("/plugins/example")) {
        Err(PluginManifestError::Invalid(message)) => message,
        Err(e) => panic!("{e:?}"),
        Ok(_) => panic!("expected an error"),
    }
}

#[test]
fn a_manifest_is_normalized_section_by_section() {
    let m = match load(Ok(manifest()), Some("/plugins/example")) {
        Ok(m) => m,
        Err(e) => panic!("{e:?}"),
    };
    assert_eq!(m.identity.id, "org.example");
    assert_eq!(m.identity.name, "Example");
    assert_eq!(m.identity.description.as_deref(), Some("about"));
    assert_eq!(m.manifest_path, "/plugins/example/phux-plugin.toml");
    assert_eq!(m.plugin_root, "/plugins/example");
    assert_eq!(m.platforms.unwrap()[0].name, "linux");
    assert_eq!(m.sections.build[0].command, ["make"]);
    assert_eq!(m.sections.agents.len(), 2);
    assert_eq!(m.sections.agents[1].id, "b");
    assert_eq!(m.sections.agents[0].label, "Agent");
    assert_eq!(m.sections.agents[0].description, None);
    assert_eq!(m.sections.agents[0].contexts, ["pane", "session"]);
    assert_eq!(m.sections.actions[0].keys.as_deref(), Some("C-x"));
    assert_eq!(m.sections.events[0].on, "pane-closed");
    assert_eq!(m.sections.panes[2].placement.name, "split");
    assert_eq!(m.sections.links[1].handler, "two");
    assert_eq!(m.sections.workspaces, ["w(2, 1, 1, 3)"]);
    assert_eq!(m.sections.widgets[0].kind, "text");
    assert_eq!(m.sections.widgets[1].opts, 2);
}

#[test]
fn a_manifest_without_a_place_or_a_shape_is_refused() {
    match load(Err(s("expected a table")), None) {
        Err(PluginManifestError::Invalid(m)) => assert_eq!(m, "manifest path has no parent"),
        _ => panic!("the path comes first"),
    }
    match load(Err(s("expected a table")), Some("/")) {
        Err(PluginManifestError::Parse { path, message }) => {
            assert_eq!((path.as_str(), message.as_str()), ("example", "expected a table"));
        }
        _ => panic!("expected a parse error"),
    }
}

#[test]
fn the_first_broken_field_is_reported() {
    let mut raw = manifest();
    raw.name = s(" ");
    raw.version = s(" ");
    assert_eq!(refused(raw), "empty plugin name");
    let mut raw = manifest();
    raw.id = s("");
    assert_eq!(refused(raw), "bad plugin id");
    let mut raw = manifest();
    raw.min_phux_version = s("99.0.0");
    raw.build[0].command.clear();
    assert_eq!(refused(raw), "too new");
    let mut raw = manifest();
    raw.build[0].command.clear();
    raw.agents[0].id = s("");
    assert_eq!(refused(raw), "empty command");
    let mut raw = manifest();
    raw.links.push("bad");
    raw.workspaces.push("bad");
    assert_eq!(refused(raw), "bad link");
    let mut raw = manifest();
    raw.workspaces.push("bad");
    raw.widgets[0].id = s("");
    assert_eq!(refused(raw), "bad workspace");
    let mut raw = manifest();
    raw.widgets[1].kind = s("");
    assert_eq!(refused(raw), "empty plugin widget kind");
}

#[test]
fn repeated_ids_are_refused_within_a_section() {
    let mut raw = manifest();
    raw.agents.push(agent(" a "));
    assert_eq!(refused(raw), "duplicate plugin agent id: a");
    let mut raw = manifest();
    raw.panes.push(pane("q"));
    assert_eq!(refused(raw), "duplicate plugin pane id: q");
    let mut raw = manifest();
    raw.links.push("one");
    assert_eq!(refused(raw), "duplicate plugin link handler id: one");
    let mut raw = manifest();
    raw.widgets.push(widget("x", 3));
    assert_eq!(refused(raw), "duplicate plugin widget id: x");
}

#[test]
fn fields_are_checked_in_order() {
    let rules = FieldRules {
        id: check_id,
        required: check_text,
        optional: check_optional,
        command: check_command,
    };
    let message = |r: Option<PluginManifestError>| match r {
        Some(PluginManifestError::Invalid(m)) => m,
        _ => panic!("expected an error"),
    };
    let mut raw = agent("");
    raw.contexts.push(s(" "));
    assert_eq!(message(normalize_agent(&rules, raw).err()), "empty plugin agent context");
    let mut raw = action("");
    raw.command.clear();
    assert_eq!(message(normalize_action(&rules, raw).err()), "empty command");
    let mut raw = event("x.y");
    raw.on = s("");
    assert_eq!(message(normalize_event(&rules, raw).err()), "bad plugin event id");
    let mut raw = event("x");
    raw.on = s("");
    assert_eq!(message(normalize_event(&rules, raw).err()), "empty plugin event name");
}

#[test]
fn a_pool_is_rebuilt_when_the_geometry_changes() {
    let mut pool = match RenderPool::new(|| Ok::<u8, ()>(0), || Ok(0u8), || Ok(0u8)) {
        Ok(pool) => pool,
        Err(()) => panic!("allocation failed"),
    };
    assert_eq!(pool.last_dims(), None);
    {
        let walk =
            pool.begin(Ok::<_, ()>((80, 24)), || Ok(1u8), || Ok(1u8), || Ok(1u8)).unwrap();
        *walk.state = 5;
        assert_eq!((*walk.rows, *walk.cells), (1, 1));
    }
    assert_eq!(pool.last_dims(), Some((80, 24)));
    {
        let walk =
            pool.begin(Ok::<_, ()>((80, 24)), || Ok(2u8), || Ok(2u8), || Ok(2u8)).unwrap();
        assert_eq!((*walk.state, *walk.rows, *walk.cells), (5, 1, 1), "the pool stays warm");
    }
    assert!(pool.begin(Ok((81, 24)), || Ok(3u8), || Err("rows"), || Ok(3u8)).is_err());
    assert_eq!(pool.last_dims(), Some((80, 24)), "a failed rebuild is tried again");
    assert!(pool.begin(Err("gone"), || Ok(4u8), || Ok(4u8), || Ok(4u8)).is_err());
    {
        let walk =
            pool.begin(Ok::<_, ()>((81, 24)), || Ok(6u8), || Ok(6u8), || Ok(6u8)).unwrap();
        assert_eq!((*walk.state, *walk.rows, *walk.cells), (6, 6, 6));
    }
}
