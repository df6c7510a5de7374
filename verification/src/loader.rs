//! Normalizing a plugin manifest: its identity, then each repeated section.
//!
//! How a single field is checked and normalized is given by [`FieldRules`]; the
//! order in which fields and sections are checked, what is carried over, and
//! that no two entries of a section share an id, is decided here.
use vstd::prelude::*;
use vstd::string::*;

use crate::plugin::{
    Identified, Linked, ManifestIdentity, ManifestSections, PluginManifest, PluginManifestAction,
    PluginManifestAgent, PluginManifestBuild, PluginManifestError, PluginManifestEvent,
    PluginManifestPane, PluginManifestWidget, RawPluginManifest, RawPluginManifestAction,
    RawPluginManifestAgent, RawPluginManifestBuild, RawPluginManifestEvent, RawPluginManifestPane,
    RawPluginManifestWidget,
};
use crate::text::same_text;

verus! {

/// How a manifest's fields are checked and normalized.
pub struct FieldRules<I, N, T, C> {
    /// An id, qualified or not, named in errors by a label.
    pub id: I,
    /// A text that must be there, named in errors by a label.
    pub required: N,
    /// A text that may be left out.
    pub optional: T,
    /// A command and its arguments.
    pub command: C,
}

/// The rules can be asked about any field.
pub open spec fn answers_all<
    I: Fn(&String, bool, &'static str) -> Result<String, PluginManifestError>,
    N: Fn(&String, &'static str) -> Result<String, PluginManifestError>,
    T: Fn(&String) -> Option<String>,
    C: Fn(&Vec<String>) -> Result<Vec<String>, PluginManifestError>,
>(rules: &FieldRules<I, N, T, C>) -> bool {
    &&& forall|s: &String, q: bool, l: &'static str| call_requires(rules.id, (s, q, l))
    &&& forall|s: &String, l: &'static str| call_requires(rules.required, (s, l))
    &&& forall|s: &String| call_requires(rules.optional, (s,))
    &&& forall|v: &Vec<String>| call_requires(rules.command, (v,))
}

/// The rules give `r` for an id.
pub open spec fn id_gives<
    I: Fn(&String, bool, &'static str) -> Result<String, PluginManifestError>,
    N: Fn(&String, &'static str) -> Result<String, PluginManifestError>,
    T: Fn(&String) -> Option<String>,
    C: Fn(&Vec<String>) -> Result<Vec<String>, PluginManifestError>,
>(
    rules: &FieldRules<I, N, T, C>,
    id: String,
    qualified: bool,
    label: &'static str,
    r: Result<String, PluginManifestError>,
) -> bool {
    call_ensures(rules.id, (&id, qualified, label), r)
}

/// The rules accept an id.
pub open spec fn id_passes<
    I: Fn(&String, bool, &'static str) -> Result<String, PluginManifestError>,
    N: Fn(&String, &'static str) -> Result<String, PluginManifestError>,
    T: Fn(&String) -> Option<String>,
    C: Fn(&Vec<String>) -> Result<Vec<String>, PluginManifestError>,
>(
    rules: &FieldRules<I, N, T, C>,
    id: String,
    qualified: bool,
    label: &'static str,
) -> bool {
    exists|s: String| #[trigger] id_gives(rules, id, qualified, label, Ok(s))
}

/// The rules give `r` for a text that must be there.
pub open spec fn text_gives<
    I: Fn(&String, bool, &'static str) -> Result<String, PluginManifestError>,
    N: Fn(&String, &'static str) -> Result<String, PluginManifestError>,
    T: Fn(&String) -> Option<String>,
    C: Fn(&Vec<String>) -> Result<Vec<String>, PluginManifestError>,
>(
    rules: &FieldRules<I, N, T, C>,
    text: String,
    label: &'static str,
    r: Result<String, PluginManifestError>,
) -> bool {
    call_ensures(rules.required, (&text, label), r)
}

/// The rules accept a text that must be there.
pub open spec fn text_passes<
    I: Fn(&String, bool, &'static str) -> Result<String, PluginManifestError>,
    N: Fn(&String, &'static str) -> Result<String, PluginManifestError>,
    T: Fn(&String) -> Option<String>,
    C: Fn(&Vec<String>) -> Result<Vec<String>, PluginManifestError>,
>(rules: &FieldRules<I, N, T, C>, text: String, label: &'static str) -> bool {
    exists|s: String| #[trigger] text_gives(rules, text, label, Ok(s))
}

/// The rules give `r` for a command.
pub open spec fn command_gives<
    I: Fn(&String, bool, &'static str) -> Result<String, PluginManifestError>,
    N: Fn(&String, &'static str) -> Result<String, PluginManifestError>,
    T: Fn(&String) -> Option<String>,
    C: Fn(&Vec<String>) -> Result<Vec<String>, PluginManifestError>,
>(
    rules: &FieldRules<I, N, T, C>,
    command: Vec<String>,
    r: Result<Vec<String>, PluginManifestError>,
) -> bool {
    call_ensures(rules.command, (&command,), r)
}

/// The rules accept a command.
pub open spec fn command_passes<
    I: Fn(&String, bool, &'static str) -> Result<String, PluginManifestError>,
    N: Fn(&String, &'static str) -> Result<String, PluginManifestError>,
    T: Fn(&String) -> Option<String>,
    C: Fn(&Vec<String>) -> Result<Vec<String>, PluginManifestError>,
>(rules: &FieldRules<I, N, T, C>, command: Vec<String>) -> bool {
    exists|c: Vec<String>| #[trigger] command_gives(rules, command, Ok(c))
}

/// The rules make `out` of a text that may be left out; one that was left out
/// stays so.
pub open spec fn optional_gives<
    I: Fn(&String, bool, &'static str) -> Result<String, PluginManifestError>,
    N: Fn(&String, &'static str) -> Result<String, PluginManifestError>,
    T: Fn(&String) -> Option<String>,
    C: Fn(&Vec<String>) -> Result<Vec<String>, PluginManifestError>,
>(rules: &FieldRules<I, N, T, C>, text: Option<String>, out: Option<String>) -> bool {
    match text {
        Some(s) => call_ensures(rules.optional, (&s,), out),
        None => out is None,
    }
}

/// The texts are accepted one by one as `out`.
pub open spec fn texts_pass_as<
    I: Fn(&String, bool, &'static str) -> Result<String, PluginManifestError>,
    N: Fn(&String, &'static str) -> Result<String, PluginManifestError>,
    T: Fn(&String) -> Option<String>,
    C: Fn(&Vec<String>) -> Result<Vec<String>, PluginManifestError>,
>(
    rules: &FieldRules<I, N, T, C>,
    raw: Seq<String>,
    label: &'static str,
    out: Seq<String>,
) -> bool {
    &&& out.len() == raw.len()
    &&& forall|i: int|
        0 <= i < raw.len() ==> text_gives(rules, #[trigger] raw[i], label, Ok(out[i]))
}

/// The texts are all accepted.
pub open spec fn texts_pass<
    I: Fn(&String, bool, &'static str) -> Result<String, PluginManifestError>,
    N: Fn(&String, &'static str) -> Result<String, PluginManifestError>,
    T: Fn(&String) -> Option<String>,
    C: Fn(&Vec<String>) -> Result<Vec<String>, PluginManifestError>,
>(rules: &FieldRules<I, N, T, C>, raw: Seq<String>, label: &'static str) -> bool {
    exists|out: Seq<String>| #[trigger] texts_pass_as(rules, raw, label, out)
}

/// The first text that is not accepted gives `e`.
pub open spec fn texts_fail<
    I: Fn(&String, bool, &'static str) -> Result<String, PluginManifestError>,
    N: Fn(&String, &'static str) -> Result<String, PluginManifestError>,
    T: Fn(&String) -> Option<String>,
    C: Fn(&Vec<String>) -> Result<Vec<String>, PluginManifestError>,
>(
    rules: &FieldRules<I, N, T, C>,
    raw: Seq<String>,
    label: &'static str,
    e: PluginManifestError,
) -> bool {
    exists|k: int|
        0 <= k < raw.len() && text_gives(rules, #[trigger] raw[k], label, Err(e)) && forall|j: int|
            0 <= j < k ==> text_passes(rules, #[trigger] raw[j], label)
}

fn optional_text<
    I: Fn(&String, bool, &'static str) -> Result<String, PluginManifestError>,
    N: Fn(&String, &'static str) -> Result<String, PluginManifestError>,
    T: Fn(&String) -> Option<String>,
    C: Fn(&Vec<String>) -> Result<Vec<String>, PluginManifestError>,
>(rules: &FieldRules<I, N, T, C>, text: &Option<String>) -> (out: Option<String>)
    requires
        answers_all(rules),
    ensures
        optional_gives(rules, *text, out),
{
    match text {
        Some(s) => (rules.optional)(s),
        None => None,
    }
}

fn required_texts<
    I: Fn(&String, bool, &'static str) -> Result<String, PluginManifestError>,
    N: Fn(&String, &'static str) -> Result<String, PluginManifestError>,
    T: Fn(&String) -> Option<String>,
    C: Fn(&Vec<String>) -> Result<Vec<String>, PluginManifestError>,
>(rules: &FieldRules<I, N, T, C>, raw: &Vec<String>, label: &'static str) -> (r: Result<
    Vec<String>,
    PluginManifestError,
>)
    requires
        answers_all(rules),
    ensures
        match r {
            Ok(out) => texts_pass_as(rules, raw@, label, out@),
            Err(e) => texts_fail(rules, raw@, label, e),
        },
{
    let mut out: Vec<String> = Vec::new();
    let mut i: usize = 0;
    while i < raw.len()
        invariant
            i <= raw.len(),
            answers_all(rules),
            out@.len() == i,
            forall|j: int|
                0 <= j < i ==> text_gives(rules, #[trigger] raw@[j], label, Ok(out@[j])),
        decreases raw.len() - i,
    {
        let checked = (rules.required)(&raw[i], label);
        match checked {
            Ok(s) => {
                proof {
                    assert(text_gives(rules, raw@[i as int], label, Ok(s)));
                }
                out.push(s);
            },
            Err(e) => {
                proof {
                    assert(text_gives(rules, raw@[i as int], label, Err(e)));
                    assert forall|j: int| 0 <= j < i implies text_passes(
                        rules,
                        #[trigger] raw@[j],
                        label,
                    ) by {
                        assert(text_gives(rules, raw@[j], label, Ok(out@[j])));
                    }
                }
                return Err(e);
            },
        }
        i = i + 1;
    }
    Ok(out)
}

/// The outcome of normalizing a build step: its command is checked, its
/// platforms carried over.
pub open spec fn build_outcome<
    I: Fn(&String, bool, &'static str) -> Result<String, PluginManifestError>,
    N: Fn(&String, &'static str) -> Result<String, PluginManifestError>,
    T: Fn(&String) -> Option<String>,
    C: Fn(&Vec<String>) -> Result<Vec<String>, PluginManifestError>,
>(
    rules: &FieldRules<I, N, T, C>,
    raw: RawPluginManifestBuild,
    r: Result<PluginManifestBuild, PluginManifestError>,
) -> bool {
    match r {
        Ok(b) => command_gives(rules, raw.command, Ok(b.command)) && b.platforms == raw.platforms,
        Err(e) => command_gives(rules, raw.command, Err(e)),
    }
}

/// Normalize a build step.
pub fn normalize_build<
    I: Fn(&String, bool, &'static str) -> Result<String, PluginManifestError>,
    N: Fn(&String, &'static str) -> Result<String, PluginManifestError>,
    T: Fn(&String) -> Option<String>,
    C: Fn(&Vec<String>) -> Result<Vec<String>, PluginManifestError>,
>(rules: &FieldRules<I, N, T, C>, raw: RawPluginManifestBuild) -> (r: Result<
    PluginManifestBuild,
    PluginManifestError,
>)
    requires
        answers_all(rules),
    ensures
        build_outcome(rules, raw, r),
{
    match (rules.command)(&raw.command) {
        Ok(command) => Ok(PluginManifestBuild { platforms: raw.platforms, command }),
        Err(e) => Err(e),
    }
}

/// The outcome of normalizing an agent: contexts, id and label are checked, in
/// that order.
pub open spec fn agent_outcome<
    I: Fn(&String, bool, &'static str) -> Result<String, PluginManifestError>,
    N: Fn(&String, &'static str) -> Result<String, PluginManifestError>,
    T: Fn(&String) -> Option<String>,
    C: Fn(&Vec<String>) -> Result<Vec<String>, PluginManifestError>,
>(
    rules: &FieldRules<I, N, T, C>,
    raw: RawPluginManifestAgent,
    r: Result<PluginManifestAgent, PluginManifestError>,
) -> bool {
    let contexts = raw.contexts@;
    match r {
        Ok(a) => {
            &&& texts_pass_as(rules, contexts, "plugin agent context", a.contexts@)
            &&& id_gives(rules, raw.id, false, "plugin agent id", Ok(a.id))
            &&& text_gives(rules, raw.label, "plugin agent label", Ok(a.label))
            &&& optional_gives(rules, raw.description, a.description)
            &&& a.state == raw.state
            &&& a.attention == raw.attention
        },
        Err(e) => {
            ||| texts_fail(rules, contexts, "plugin agent context", e)
            ||| texts_pass(rules, contexts, "plugin agent context") && {
                ||| id_gives(rules, raw.id, false, "plugin agent id", Err(e))
                ||| id_passes(rules, raw.id, false, "plugin agent id") && text_gives(
                    rules,
                    raw.label,
                    "plugin agent label",
                    Err(e),
                )
            }
        },
    }
}

/// Normalize an agent.
pub fn normalize_agent<
    I: Fn(&String, bool, &'static str) -> Result<String, PluginManifestError>,
    N: Fn(&String, &'static str) -> Result<String, PluginManifestError>,
    T: Fn(&String) -> Option<String>,
    C: Fn(&Vec<String>) -> Result<Vec<String>, PluginManifestError>,
>(rules: &FieldRules<I, N, T, C>, raw: RawPluginManifestAgent) -> (r: Result<
    PluginManifestAgent,
    PluginManifestError,
>)
    requires
        answers_all(rules),
    ensures
        agent_outcome(rules, raw, r),
{
    let contexts = match required_texts(rules, &raw.contexts, "plugin agent context") {
        Ok(contexts) => contexts,
        Err(e) => {
            return Err(e);
        },
    };
    proof {
        assert(texts_pass_as(rules, raw.contexts@, "plugin agent context", contexts@));
    }
    let id = match (rules.id)(&raw.id, false, "plugin agent id") {
        Ok(id) => id,
        Err(e) => {
            return Err(e);
        },
    };
    proof {
        assert(id_gives(rules, raw.id, false, "plugin agent id", Ok(id)));
    }
    let label = match (rules.required)(&raw.label, "plugin agent label") {
        Ok(label) => label,
        Err(e) => {
            return Err(e);
        },
    };
    let description = optional_text(rules, &raw.description);
    Ok(
        PluginManifestAgent {
            id,
            label,
            description,
            state: raw.state,
            attention: raw.attention,
            contexts,
        },
    )
}

/// The outcome of normalizing an action: contexts, command, id and title are
/// checked, in that order.
pub open spec fn action_outcome<
    I: Fn(&String, bool, &'static str) -> Result<String, PluginManifestError>,
    N: Fn(&String, &'static str) -> Result<String, PluginManifestError>,
    T: Fn(&String) -> Option<String>,
    C: Fn(&Vec<String>) -> Result<Vec<String>, PluginManifestError>,
>(
    rules: &FieldRules<I, N, T, C>,
    raw: RawPluginManifestAction,
    r: Result<PluginManifestAction, PluginManifestError>,
) -> bool {
    let contexts = raw.contexts@;
    match r {
        Ok(a) => {
            &&& texts_pass_as(rules, contexts, "plugin action context", a.contexts@)
            &&& command_gives(rules, raw.command, Ok(a.command))
            &&& id_gives(rules, raw.id, false, "plugin action id", Ok(a.id))
            &&& text_gives(rules, raw.title, "plugin action title", Ok(a.title))
            &&& optional_gives(rules, raw.description, a.description)
            &&& optional_gives(rules, raw.keys, a.keys)
            &&& a.platforms == raw.platforms
        },
        Err(e) => {
            ||| texts_fail(rules, contexts, "plugin action context", e)
            ||| texts_pass(rules, contexts, "plugin action context") && {
                ||| command_gives(rules, raw.command, Err(e))
                ||| command_passes(rules, raw.command) && {
                    ||| id_gives(rules, raw.id, false, "plugin action id", Err(e))
                    ||| id_passes(rules, raw.id, false, "plugin action id") && text_gives(
                        rules,
                        raw.title,
                        "plugin action title",
                        Err(e),
                    )
                }
            }
        },
    }
}

/// Normalize an action.
pub fn normalize_action<
    I: Fn(&String, bool, &'static str) -> Result<String, PluginManifestError>,
    N: Fn(&String, &'static str) -> Result<String, PluginManifestError>,
    T: Fn(&String) -> Option<String>,
    C: Fn(&Vec<String>) -> Result<Vec<String>, PluginManifestError>,
>(rules: &FieldRules<I, N, T, C>, raw: RawPluginManifestAction) -> (r: Result<
    PluginManifestAction,
    PluginManifestError,
>)
    requires
        answers_all(rules),
    ensures
        action_outcome(rules, raw, r),
{
    let contexts = match required_texts(rules, &raw.contexts, "plugin action context") {
        Ok(contexts) => contexts,
        Err(e) => {
            return Err(e);
        },
    };
    proof {
        assert(texts_pass_as(rules, raw.contexts@, "plugin action context", contexts@));
    }
    let command = match (rules.command)(&raw.command) {
        Ok(command) => command,
        Err(e) => {
            return Err(e);
        },
    };
    proof {
        assert(command_gives(rules, raw.command, Ok(command)));
    }
    let id = match (rules.id)(&raw.id, false, "plugin action id") {
        Ok(id) => id,
        Err(e) => {
            return Err(e);
        },
    };
    proof {
        assert(id_gives(rules, raw.id, false, "plugin action id", Ok(id)));
    }
    let title = match (rules.required)(&raw.title, "plugin action title") {
        Ok(title) => title,
        Err(e) => {
            return Err(e);
        },
    };
    let description = optional_text(rules, &raw.description);
    let keys = optional_text(rules, &raw.keys);
    Ok(
        PluginManifestAction {
            id,
            title,
            description,
            contexts,
            platforms: raw.platforms,
            command,
            keys,
        },
    )
}

/// The outcome of normalizing an event hook: command, id, title and event name
/// are checked, in that order.
pub open spec fn event_outcome<
    I: Fn(&String, bool, &'static str) -> Result<String, PluginManifestError>,
    N: Fn(&String, &'static str) -> Result<String, PluginManifestError>,
    T: Fn(&String) -> Option<String>,
    C: Fn(&Vec<String>) -> Result<Vec<String>, PluginManifestError>,
>(
    rules: &FieldRules<I, N, T, C>,
    raw: RawPluginManifestEvent,
    r: Result<PluginManifestEvent, PluginManifestError>,
) -> bool {
    match r {
        Ok(v) => {
            &&& command_gives(rules, raw.command, Ok(v.command))
            &&& id_gives(rules, raw.id, false, "plugin event id", Ok(v.id))
            &&& text_gives(rules, raw.title, "plugin event title", Ok(v.title))
            &&& optional_gives(rules, raw.description, v.description)
            &&& text_gives(rules, raw.on, "plugin event name", Ok(v.on))
            &&& v.platforms == raw.platforms
        },
        Err(e) => {
            ||| command_gives(rules, raw.command, Err(e))
            ||| command_passes(rules, raw.command) && {
                ||| id_gives(rules, raw.id, false, "plugin event id", Err(e))
                ||| id_passes(rules, raw.id, false, "plugin event id") && {
                    ||| text_gives(rules, raw.title, "plugin event title", Err(e))
                    ||| text_passes(rules, raw.title, "plugin event title") && text_gives(
                        rules,
                        raw.on,
                        "plugin event name",
                        Err(e),
                    )
                }
            }
        },
    }
}

/// Normalize an event hook.
pub fn normalize_event<
    I: Fn(&String, bool, &'static str) -> Result<String, PluginManifestError>,
    N: Fn(&String, &'static str) -> Result<String, PluginManifestError>,
    T: Fn(&String) -> Option<String>,
    C: Fn(&Vec<String>) -> Result<Vec<String>, PluginManifestError>,
>(rules: &FieldRules<I, N, T, C>, raw: RawPluginManifestEvent) -> (r: Result<
    PluginManifestEvent,
    PluginManifestError,
>)
    requires
        answers_all(rules),
    ensures
        event_outcome(rules, raw, r),
{
    let command = match (rules.command)(&raw.command) {
        Ok(command) => command,
        Err(e) => {
            return Err(e);
        },
    };
    proof {
        assert(command_gives(rules, raw.command, Ok(command)));
    }
    let id = match (rules.id)(&raw.id, false, "plugin event id") {
        Ok(id) => id,
        Err(e) => {
            return Err(e);
        },
    };
    proof {
        assert(id_gives(rules, raw.id, false, "plugin event id", Ok(id)));
    }
    let title = match (rules.required)(&raw.title, "plugin event title") {
        Ok(title) => title,
        Err(e) => {
            return Err(e);
        },
    };
    proof {
        assert(text_gives(rules, raw.title, "plugin event title", Ok(title)));
    }
    let description = optional_text(rules, &raw.description);
    let on = match (rules.required)(&raw.on, "plugin event name") {
        Ok(on) => on,
        Err(e) => {
            return Err(e);
        },
    };
    Ok(PluginManifestEvent { id, title, description, on, platforms: raw.platforms, command })
}

/// The outcome of normalizing a pane: command, id and title are checked, in that
/// order.
pub open spec fn pane_outcome<
    I: Fn(&String, bool, &'static str) -> Result<String, PluginManifestError>,
    N: Fn(&String, &'static str) -> Result<String, PluginManifestError>,
    T: Fn(&String) -> Option<String>,
    C: Fn(&Vec<String>) -> Result<Vec<String>, PluginManifestError>,
>(
    rules: &FieldRules<I, N, T, C>,
    raw: RawPluginManifestPane,
    r: Result<PluginManifestPane, PluginManifestError>,
) -> bool {
    match r {
        Ok(p) => {
            &&& command_gives(rules, raw.command, Ok(p.command))
            &&& id_gives(rules, raw.id, false, "plugin pane id", Ok(p.id))
            &&& text_gives(rules, raw.title, "plugin pane title", Ok(p.title))
            &&& optional_gives(rules, raw.description, p.description)
            &&& p.platforms == raw.platforms
            &&& p.placement == raw.placement
        },
        Err(e) => {
            ||| command_gives(rules, raw.command, Err(e))
            ||| command_passes(rules, raw.command) && {
                ||| id_gives(rules, raw.id, false, "plugin pane id", Err(e))
                ||| id_passes(rules, raw.id, false, "plugin pane id") && text_gives(
                    rules,
                    raw.title,
                    "plugin pane title",
                    Err(e),
                )
            }
        },
    }
}

/// Normalize a pane.
pub fn normalize_pane<
    I: Fn(&String, bool, &'static str) -> Result<String, PluginManifestError>,
    N: Fn(&String, &'static str) -> Result<String, PluginManifestError>,
    T: Fn(&String) -> Option<String>,
    C: Fn(&Vec<String>) -> Result<Vec<String>, PluginManifestError>,
>(rules: &FieldRules<I, N, T, C>, raw: RawPluginManifestPane) -> (r: Result<
    PluginManifestPane,
    PluginManifestError,
>)
    requires
        answers_all(rules),
    ensures
        pane_outcome(rules, raw, r),
{
    let command = match (rules.command)(&raw.command) {
        Ok(command) => command,
        Err(e) => {
            return Err(e);
        },
    };
    proof {
        assert(command_gives(rules, raw.command, Ok(command)));
    }
    let id = match (rules.id)(&raw.id, false, "plugin pane id") {
        Ok(id) => id,
        Err(e) => {
            return Err(e);
        },
    };
    proof {
        assert(id_gives(rules, raw.id, false, "plugin pane id", Ok(id)));
    }
    let title = match (rules.required)(&raw.title, "plugin pane title") {
        Ok(title) => title,
        Err(e) => {
            return Err(e);
        },
    };
    let description = optional_text(rules, &raw.description);
    Ok(
        PluginManifestPane {
            id,
            title,
            description,
            platforms: raw.platforms,
            placement: raw.placement,
            command,
        },
    )
}

/// The outcome of normalizing a widget: id and kind are checked, in that order,
/// and its options carried over.
pub open spec fn widget_outcome<
    O,
    I: Fn(&String, bool, &'static str) -> Result<String, PluginManifestError>,
    N: Fn(&String, &'static str) -> Result<String, PluginManifestError>,
    T: Fn(&String) -> Option<String>,
    C: Fn(&Vec<String>) -> Result<Vec<String>, PluginManifestError>,
>(
    rules: &FieldRules<I, N, T, C>,
    raw: RawPluginManifestWidget<O>,
    r: Result<PluginManifestWidget<O>, PluginManifestError>,
) -> bool {
    match r {
        Ok(w) => {
            &&& id_gives(rules, raw.id, false, "plugin widget id", Ok(w.id))
            &&& text_gives(rules, raw.kind, "plugin widget kind", Ok(w.kind))
            &&& w.slot == raw.slot
            &&& w.opts == raw.opts
        },
        Err(e) => {
            ||| id_gives(rules, raw.id, false, "plugin widget id", Err(e))
            ||| id_passes(rules, raw.id, false, "plugin widget id") && text_gives(
                rules,
                raw.kind,
                "plugin widget kind",
                Err(e),
            )
        },
    }
}

/// Normalize a widget.
pub fn normalize_widget<
    O,
    I: Fn(&String, bool, &'static str) -> Result<String, PluginManifestError>,
    N: Fn(&String, &'static str) -> Result<String, PluginManifestError>,
    T: Fn(&String) -> Option<String>,
    C: Fn(&Vec<String>) -> Result<Vec<String>, PluginManifestError>,
>(rules: &FieldRules<I, N, T, C>, raw: RawPluginManifestWidget<O>) -> (r: Result<
    PluginManifestWidget<O>,
    PluginManifestError,
>)
    requires
        answers_all(rules),
    ensures
        widget_outcome(rules, raw, r),
{
    let id = match (rules.id)(&raw.id, false, "plugin widget id") {
        Ok(id) => id,
        Err(e) => {
            return Err(e);
        },
    };
    proof {
        assert(id_gives(rules, raw.id, false, "plugin widget id", Ok(id)));
    }
    let kind = match (rules.required)(&raw.kind, "plugin widget kind") {
        Ok(kind) => kind,
        Err(e) => {
            return Err(e);
        },
    };
    Ok(PluginManifestWidget { id, slot: raw.slot, kind, opts: raw.opts })
}

/// What normalizing one entry may give.
pub type Outcome<R, T> = spec_fn(R, Result<T, PluginManifestError>) -> bool;

/// The entries are normalized one by one to `out`.
pub open spec fn entries_pass_as<R, T>(one: Outcome<R, T>, raw: Seq<R>, out: Seq<T>) -> bool {
    &&& out.len() == raw.len()
    &&& forall|i: int| 0 <= i < raw.len() ==> one(#[trigger] raw[i], Ok(out[i]))
}

/// The entry is accepted.
pub open spec fn entry_passes<R, T>(one: Outcome<R, T>, x: R) -> bool {
    exists|t: T| one(x, Ok(t))
}

/// The first entry that is refused gives `e`.
pub open spec fn entries_fail<R, T>(
    one: Outcome<R, T>,
    raw: Seq<R>,
    e: PluginManifestError,
) -> bool {
    exists|k: int|
        0 <= k < raw.len() && one(#[trigger] raw[k], Err(e)) && forall|j: int|
            0 <= j < k ==> entry_passes(one, #[trigger] raw[j])
}

/// No two entries share an id.
pub open spec fn ids_distinct<T: Identified>(entries: Seq<T>) -> bool {
    forall|i: int, j: int|
        0 <= i < j < entries.len() ==> (#[trigger] entries[i]).id_text() != (
        #[trigger] entries[j]).id_text()
}

/// The `k`-th entry is the first to repeat an id.
pub open spec fn is_first_repeat<T: Identified>(entries: Seq<T>, k: int) -> bool {
    &&& 0 <= k < entries.len()
    &&& ids_distinct(entries.take(k))
    &&& exists|j: int| 0 <= j < k && (#[trigger] entries[j]).id_text() == entries[k].id_text()
}

/// The message of a repeated id.
pub open spec fn repeat_text(label: Seq<char>, id: Seq<char>) -> Seq<char> {
    "duplicate "@ + label + " id: "@ + id
}

/// The error names the first repeated id.
pub open spec fn is_repeat_error<T: Identified>(
    entries: Seq<T>,
    label: Seq<char>,
    e: PluginManifestError,
) -> bool {
    e matches PluginManifestError::Invalid(m) && exists|k: int| #[trigger]
        is_first_repeat(entries, k) && m@ == repeat_text(label, entries[k].id_text())
}

/// The outcome of normalizing a section: every entry is normalized, then a
/// repeated id is refused.
pub open spec fn section_outcome<R, T: Identified>(
    one: Outcome<R, T>,
    raw: Seq<R>,
    label: Seq<char>,
    r: Result<Vec<T>, PluginManifestError>,
) -> bool {
    match r {
        Ok(out) => entries_pass_as(one, raw, out@) && ids_distinct(out@),
        Err(e) => entries_fail(one, raw, e) || exists|out: Seq<T>| #[trigger]
            entries_pass_as(one, raw, out) && is_repeat_error(out, label, e),
    }
}

/// Refuse a repeated id.
pub fn reject_duplicate_ids<T: Identified>(entries: &Vec<T>, label: &str) -> (r: Result<
    (),
    PluginManifestError,
>)
    ensures
        match r {
            Ok(_) => ids_distinct(entries@),
            Err(e) => is_repeat_error(entries@, label@, e),
        },
{
    let mut k: usize = 0;
    while k < entries.len()
        invariant
            k <= entries.len(),
            ids_distinct(entries@.take(k as int)),
        decreases entries.len() - k,
    {
        let mut j: usize = 0;
        while j < k
            invariant
                j <= k < entries.len(),
                ids_distinct(entries@.take(k as int)),
                forall|i: int|
                    0 <= i < j ==> (#[trigger] entries@[i]).id_text()
                        != entries@[k as int].id_text(),
            decreases k - j,
        {
            if same_text(entries[j].id(), entries[k].id()) {
                let mut message = "duplicate ".to_owned();
                message.append(label);
                message.append(" id: ");
                message.append(entries[k].id());
                proof {
                    assert(entries@[j as int].id_text() == entries@[k as int].id_text());
                    assert(is_first_repeat(entries@, k as int));
                }
                return Err(PluginManifestError::Invalid(message));
            }
            j = j + 1;
        }
        proof {
            let next = entries@.take(k + 1);
            assert forall|i: int, m: int| 0 <= i < m < next.len() implies (
            #[trigger] next[i]).id_text() != (#[trigger] next[m]).id_text() by {
                if m < k {
                    assert(entries@.take(k as int)[i] == next[i]);
                    assert(entries@.take(k as int)[m] == next[m]);
                } else {
                    assert(entries@[i].id_text() != entries@[k as int].id_text());
                }
            }
        }
        k = k + 1;
    }
    proof {
        assert(entries@.take(k as int) =~= entries@);
    }
    Ok(())
}

/// Normalize the entries of a section, in order, up to the first that is
/// refused.
fn normalize_entries<R, T, F: Fn(R) -> Result<T, PluginManifestError>>(
    raw: Vec<R>,
    normalize: &F,
) -> (r: Result<Vec<T>, PluginManifestError>)
    requires
        forall|x: R| call_requires(*normalize, (x,)),
    ensures
        ({
            let one: Outcome<R, T> = |x: R, res: Result<T, PluginManifestError>|
                call_ensures(*normalize, (x,), res);
            match r {
                Ok(out) => entries_pass_as(one, raw@, out@),
                Err(e) => entries_fail(one, raw@, e),
            }
        }),
{
    let ghost all = raw@;
    let ghost one: Outcome<R, T> = |x: R, res: Result<T, PluginManifestError>|
        call_ensures(*normalize, (x,), res);
    let mut rest = raw;
    let mut out: Vec<T> = Vec::new();
    proof {
        assert(all.skip(0) =~= all);
    }
    while rest.len() > 0
        invariant
            forall|x: R| call_requires(*normalize, (x,)),
            one == (|x: R, res: Result<T, PluginManifestError>| call_ensures(*normalize, (x,), res)),
            all == raw@,
            out@.len() <= all.len(),
            rest@ == all.skip(out@.len() as int),
            forall|i: int| 0 <= i < out@.len() ==> one(#[trigger] all[i], Ok(out@[i])),
        decreases rest@.len(),
    {
        let ghost k = out@.len() as int;
        let entry = rest.remove(0);
        proof {
            assert(entry == all[k]);
            assert(rest@ =~= all.skip(k + 1));
        }
        match normalize(entry) {
            Ok(t) => {
                proof {
                    assert(one(all[k], Ok(t)));
                }
                out.push(t);
            },
            Err(e) => {
                proof {
                    assert(one(all[k], Err(e)));
                    assert forall|j: int| 0 <= j < k implies entry_passes(
                        one,
                        #[trigger] all[j],
                    ) by {
                        assert(one(all[j], Ok(out@[j])));
                    }
                }
                return Err(e);
            },
        }
    }
    Ok(out)
}

/// Normalize one repeated section entry by entry, then refuse repeated ids
/// within it.
pub fn normalize_unique_section<R, T: Identified, F: Fn(R) -> Result<T, PluginManifestError>>(
    raw: Vec<R>,
    normalize: F,
    label: &str,
) -> (r: Result<Vec<T>, PluginManifestError>)
    requires
        forall|x: R| call_requires(normalize, (x,)),
    ensures
        section_outcome(
            |x: R, res: Result<T, PluginManifestError>| call_ensures(normalize, (x,), res),
            raw@,
            label@,
            r,
        ),
{
    let entries = match normalize_entries(raw, &normalize) {
        Ok(entries) => entries,
        Err(e) => {
            return Err(e);
        },
    };
    match reject_duplicate_ids(&entries, label) {
        Ok(_) => Ok(entries),
        Err(e) => {
            proof {
                let one: Outcome<R, T> = |x: R, res: Result<T, PluginManifestError>|
                    call_ensures(normalize, (x,), res);
                assert(entries_pass_as(one, raw@, entries@));
            }
            Err(e)
        },
    }
}

/// A section's outcome under one description of an entry's outcome is its
/// outcome under any that follows from it.
proof fn lemma_section_weaken<R, T: Identified>(
    a: Outcome<R, T>,
    b: Outcome<R, T>,
    raw: Seq<R>,
    label: Seq<char>,
    r: Result<Vec<T>, PluginManifestError>,
)
    requires
        section_outcome(a, raw, label, r),
        forall|x: R, res: Result<T, PluginManifestError>| #[trigger] a(x, res) ==> b(x, res),
    ensures
        section_outcome(b, raw, label, r),
{
    match r {
        Ok(out) => {
            assert forall|i: int| 0 <= i < raw.len() implies b(#[trigger] raw[i], Ok(out@[i])) by {
                assert(a(raw[i], Ok(out@[i])));
            }
        },
        Err(e) => {
            if entries_fail(a, raw, e) {
                lemma_fail_weaken(a, b, raw, e);
            } else {
                let out = choose|out: Seq<T>| #[trigger]
                    entries_pass_as(a, raw, out) && is_repeat_error(out, label, e);
                assert forall|i: int| 0 <= i < raw.len() implies b(#[trigger] raw[i], Ok(out[i])) by {
                    assert(a(raw[i], Ok(out[i])));
                }
                assert(entries_pass_as(b, raw, out));
            }
        },
    }
}

proof fn lemma_fail_weaken<R, T>(
    a: Outcome<R, T>,
    b: Outcome<R, T>,
    raw: Seq<R>,
    e: PluginManifestError,
)
    requires
        entries_fail(a, raw, e),
        forall|x: R, res: Result<T, PluginManifestError>| #[trigger] a(x, res) ==> b(x, res),
    ensures
        entries_fail(b, raw, e),
{
    let k = choose|k: int|
        0 <= k < raw.len() && a(#[trigger] raw[k], Err(e)) && forall|j: int|
            0 <= j < k ==> entry_passes(a, #[trigger] raw[j]);
    assert(b(raw[k], Err(e)));
    assert forall|j: int| 0 <= j < k implies entry_passes(b, #[trigger] raw[j]) by {
        let t = choose|t: T| a(raw[j], Ok(t));
        assert(b(raw[j], Ok(t)));
    }
}

/// The outcome of normalizing a manifest's identity: id, name, version and the
/// version floor are checked, in that order, and then the floor is enforced.
pub open spec fn identity_outcome<
    L,
    W,
    O,
    I: Fn(&String, bool, &'static str) -> Result<String, PluginManifestError>,
    N: Fn(&String, &'static str) -> Result<String, PluginManifestError>,
    T: Fn(&String) -> Option<String>,
    C: Fn(&Vec<String>) -> Result<Vec<String>, PluginManifestError>,
    V: Fn(&String, &String) -> Result<(), PluginManifestError>,
>(
    rules: &FieldRules<I, N, T, C>,
    enforce_floor: V,
    raw: RawPluginManifest<L, W, O>,
    r: Result<ManifestIdentity, PluginManifestError>,
) -> bool {
    match r {
        Ok(m) => {
            &&& id_gives(rules, raw.id, true, "plugin id", Ok(m.id))
            &&& text_gives(rules, raw.name, "plugin name", Ok(m.name))
            &&& text_gives(rules, raw.version, "plugin version", Ok(m.version))
            &&& text_gives(
                rules,
                raw.min_phux_version,
                "plugin min_phux_version",
                Ok(m.min_phux_version),
            )
            &&& call_ensures(enforce_floor, (&m.id, &m.min_phux_version), Ok(()))
            &&& optional_gives(rules, raw.description, m.description)
        },
        Err(e) => {
            ||| id_gives(rules, raw.id, true, "plugin id", Err(e))
            ||| id_passes(rules, raw.id, true, "plugin id") && {
                ||| text_gives(rules, raw.name, "plugin name", Err(e))
                ||| text_passes(rules, raw.name, "plugin name") && {
                    ||| text_gives(rules, raw.version, "plugin version", Err(e))
                    ||| text_passes(rules, raw.version, "plugin version") && {
                        ||| text_gives(
                            rules,
                            raw.min_phux_version,
                            "plugin min_phux_version",
                            Err(e),
                        )
                        ||| exists|id: String, floor: String|
                            {
                                &&& #[trigger] id_gives(rules, raw.id, true, "plugin id", Ok(id))
                                &&& #[trigger] text_gives(
                                    rules,
                                    raw.min_phux_version,
                                    "plugin min_phux_version",
                                    Ok(floor),
                                )
                                &&& call_ensures(enforce_floor, (&id, &floor), Err(e))
                            }
                    }
                }
            }
        },
    }
}

/// Normalize a manifest's identity and enforce the version floor it declares.
pub fn normalize_identity<
    L,
    W,
    O,
    I: Fn(&String, bool, &'static str) -> Result<String, PluginManifestError>,
    N: Fn(&String, &'static str) -> Result<String, PluginManifestError>,
    T: Fn(&String) -> Option<String>,
    C: Fn(&Vec<String>) -> Result<Vec<String>, PluginManifestError>,
    V: Fn(&String, &String) -> Result<(), PluginManifestError>,
>(
    rules: &FieldRules<I, N, T, C>,
    enforce_floor: &V,
    raw: &RawPluginManifest<L, W, O>,
) -> (r: Result<ManifestIdentity, PluginManifestError>)
    requires
        answers_all(rules),
        forall|id: &String, floor: &String| call_requires(*enforce_floor, (id, floor)),
    ensures
        identity_outcome(rules, *enforce_floor, *raw, r),
{
    let id = match (rules.id)(&raw.id, true, "plugin id") {
        Ok(id) => id,
        Err(e) => {
            return Err(e);
        },
    };
    proof {
        assert(id_gives(rules, raw.id, true, "plugin id", Ok(id)));
    }
    let name = match (rules.required)(&raw.name, "plugin name") {
        Ok(name) => name,
        Err(e) => {
            return Err(e);
        },
    };
    proof {
        assert(text_gives(rules, raw.name, "plugin name", Ok(name)));
    }
    let version = match (rules.required)(&raw.version, "plugin version") {
        Ok(version) => version,
        Err(e) => {
            return Err(e);
        },
    };
    proof {
        assert(text_gives(rules, raw.version, "plugin version", Ok(version)));
    }
    let floor = match (rules.required)(&raw.min_phux_version, "plugin min_phux_version") {
        Ok(floor) => floor,
        Err(e) => {
            return Err(e);
        },
    };
    proof {
        assert(text_gives(
            rules,
            raw.min_phux_version,
            "plugin min_phux_version",
            Ok(floor),
        ));
    }
    match enforce_floor(&id, &floor) {
        Ok(unit) => {
            proof {
                assert(unit == ());
            }
        },
        Err(e) => {
            return Err(e);
        },
    }
    let description = optional_text(rules, &raw.description);
    Ok(ManifestIdentity { id, name, version, min_phux_version: floor, description })
}

/// The outcome of normalizing a manifest's sections. They are taken in a fixed
/// order (build steps, agents, actions, events, panes, links, workspaces,
/// widgets) and the first that is refused gives the error; workspaces see the
/// normalized agents, actions, events and panes.
pub open spec fn sections_outcome<
    L,
    H,
    W,
    X,
    O,
    I: Fn(&String, bool, &'static str) -> Result<String, PluginManifestError>,
    N: Fn(&String, &'static str) -> Result<String, PluginManifestError>,
    T: Fn(&String) -> Option<String>,
    C: Fn(&Vec<String>) -> Result<Vec<String>, PluginManifestError>,
    FL: Fn(L) -> Result<Linked<H>, PluginManifestError>,
    FW: Fn(
        Vec<W>,
        &Vec<PluginManifestAgent>,
        &Vec<PluginManifestAction>,
        &Vec<PluginManifestEvent>,
        &Vec<PluginManifestPane>,
    ) -> Result<Vec<X>, PluginManifestError>,
>(
    rules: &FieldRules<I, N, T, C>,
    link: FL,
    workspaces: FW,
    raw: RawPluginManifest<L, W, O>,
    r: Result<ManifestSections<H, X, O>, PluginManifestError>,
) -> bool {
    let build_one: Outcome<RawPluginManifestBuild, PluginManifestBuild> = |x, res|
        build_outcome(rules, x, res);
    let agents = |res| agents_outcome(rules, raw.agents@, res);
    let actions = |res| actions_outcome(rules, raw.actions@, res);
    let events = |res| events_outcome(rules, raw.events@, res);
    let panes = |res| panes_outcome(rules, raw.panes@, res);
    let links = |res| links_outcome(link, raw.links@, res);
    let widgets = |res| widgets_outcome(rules, raw.widgets@, res);
    match r {
        Ok(s) => {
            &&& entries_pass_as(build_one, raw.build@, s.build@)
            &&& agents(Ok(s.agents))
            &&& actions(Ok(s.actions))
            &&& events(Ok(s.events))
            &&& panes(Ok(s.panes))
            &&& links(Ok(s.links))
            &&& call_ensures(
                workspaces,
                (raw.workspaces, &s.agents, &s.actions, &s.events, &s.panes),
                Ok(s.workspaces),
            )
            &&& widgets(Ok(s.widgets))
        },
        Err(e) => {
            ||| entries_fail(build_one, raw.build@, e)
            ||| (exists|b: Seq<PluginManifestBuild>| #[trigger]
                entries_pass_as(build_one, raw.build@, b)) && {
                ||| agents(Err(e))
                ||| exists|a: Vec<PluginManifestAgent>| #[trigger]
                    agents_outcome(rules, raw.agents@, Ok(a)) && {
                        ||| actions(Err(e))
                        ||| exists|c: Vec<PluginManifestAction>| #[trigger]
                            actions_outcome(rules, raw.actions@, Ok(c)) && {
                                ||| events(Err(e))
                                ||| exists|v: Vec<PluginManifestEvent>| #[trigger]
                                    events_outcome(rules, raw.events@, Ok(v)) && {
                                        ||| panes(Err(e))
                                        ||| exists|p: Vec<PluginManifestPane>| #[trigger]
                                            panes_outcome(rules, raw.panes@, Ok(p)) && {
                                                ||| links(Err(e))
                                                ||| (exists|h: Vec<Linked<H>>| #[trigger]
                                                    links_outcome(link, raw.links@, Ok(h))) && {
                                                    ||| call_ensures(
                                                        workspaces,
                                                        (raw.workspaces, &a, &c, &v, &p),
                                                        Err(e),
                                                    )
                                                    ||| (exists|x: Vec<X>| #[trigger]
                                                        call_ensures(
                                                            workspaces,
                                                            (raw.workspaces, &a, &c, &v, &p),
                                                            Ok(x),
                                                        )) && widgets(Err(e))
                                                }
                                            }
                                    }
                            }
                    }
            }
        },
    }
}

/// The outcome of the agent section.
pub open spec fn agents_outcome<
    I: Fn(&String, bool, &'static str) -> Result<String, PluginManifestError>,
    N: Fn(&String, &'static str) -> Result<String, PluginManifestError>,
    T: Fn(&String) -> Option<String>,
    C: Fn(&Vec<String>) -> Result<Vec<String>, PluginManifestError>,
>(
    rules: &FieldRules<I, N, T, C>,
    raw: Seq<RawPluginManifestAgent>,
    r: Result<Vec<PluginManifestAgent>, PluginManifestError>,
) -> bool {
    section_outcome(|x, res| agent_outcome(rules, x, res), raw, "plugin agent"@, r)
}

/// The outcome of the action section.
pub open spec fn actions_outcome<
    I: Fn(&String, bool, &'static str) -> Result<String, PluginManifestError>,
    N: Fn(&String, &'static str) -> Result<String, PluginManifestError>,
    T: Fn(&String) -> Option<String>,
    C: Fn(&Vec<String>) -> Result<Vec<String>, PluginManifestError>,
>(
    rules: &FieldRules<I, N, T, C>,
    raw: Seq<RawPluginManifestAction>,
    r: Result<Vec<PluginManifestAction>, PluginManifestError>,
) -> bool {
    section_outcome(|x, res| action_outcome(rules, x, res), raw, "plugin action"@, r)
}

/// The outcome of the event section.
pub open spec fn events_outcome<
    I: Fn(&String, bool, &'static str) -> Result<String, PluginManifestError>,
    N: Fn(&String, &'static str) -> Result<String, PluginManifestError>,
    T: Fn(&String) -> Option<String>,
    C: Fn(&Vec<String>) -> Result<Vec<String>, PluginManifestError>,
>(
    rules: &FieldRules<I, N, T, C>,
    raw: Seq<RawPluginManifestEvent>,
    r: Result<Vec<PluginManifestEvent>, PluginManifestError>,
) -> bool {
    section_outcome(|x, res| event_outcome(rules, x, res), raw, "plugin event"@, r)
}

/// The outcome of the pane section.
pub open spec fn panes_outcome<
    I: Fn(&String, bool, &'static str) -> Result<String, PluginManifestError>,
    N: Fn(&String, &'static str) -> Result<String, PluginManifestError>,
    T: Fn(&String) -> Option<String>,
    C: Fn(&Vec<String>) -> Result<Vec<String>, PluginManifestError>,
>(
    rules: &FieldRules<I, N, T, C>,
    raw: Seq<RawPluginManifestPane>,
    r: Result<Vec<PluginManifestPane>, PluginManifestError>,
) -> bool {
    section_outcome(|x, res| pane_outcome(rules, x, res), raw, "plugin pane"@, r)
}

/// The outcome of the link section.
pub open spec fn links_outcome<L, H, FL: Fn(L) -> Result<Linked<H>, PluginManifestError>>(
    link: FL,
    raw: Seq<L>,
    r: Result<Vec<Linked<H>>, PluginManifestError>,
) -> bool {
    section_outcome(
        |x: L, res: Result<Linked<H>, PluginManifestError>| call_ensures(link, (x,), res),
        raw,
        "plugin link handler"@,
        r,
    )
}

/// The outcome of the widget section.
pub open spec fn widgets_outcome<
    O,
    I: Fn(&String, bool, &'static str) -> Result<String, PluginManifestError>,
    N: Fn(&String, &'static str) -> Result<String, PluginManifestError>,
    T: Fn(&String) -> Option<String>,
    C: Fn(&Vec<String>) -> Result<Vec<String>, PluginManifestError>,
>(
    rules: &FieldRules<I, N, T, C>,
    raw: Seq<RawPluginManifestWidget<O>>,
    r: Result<Vec<PluginManifestWidget<O>>, PluginManifestError>,
) -> bool {
    section_outcome(|x, res| widget_outcome(rules, x, res), raw, "plugin widget"@, r)
}

/// Normalize every repeated section, in the order their cross-references
/// require.
pub fn normalize_sections<
    L,
    H,
    W,
    X,
    O,
    I: Fn(&String, bool, &'static str) -> Result<String, PluginManifestError>,
    N: Fn(&String, &'static str) -> Result<String, PluginManifestError>,
    T: Fn(&String) -> Option<String>,
    C: Fn(&Vec<String>) -> Result<Vec<String>, PluginManifestError>,
    FL: Fn(L) -> Result<Linked<H>, PluginManifestError>,
    FW: Fn(
        Vec<W>,
        &Vec<PluginManifestAgent>,
        &Vec<PluginManifestAction>,
        &Vec<PluginManifestEvent>,
        &Vec<PluginManifestPane>,
    ) -> Result<Vec<X>, PluginManifestError>,
>(
    rules: &FieldRules<I, N, T, C>,
    link: FL,
    workspaces: FW,
    raw: RawPluginManifest<L, W, O>,
) -> (r: Result<ManifestSections<H, X, O>, PluginManifestError>)
    requires
        answers_all(rules),
        forall|l: L| call_requires(link, (l,)),
        forall|
            w: Vec<W>,
            a: &Vec<PluginManifestAgent>,
            c: &Vec<PluginManifestAction>,
            v: &Vec<PluginManifestEvent>,
            p: &Vec<PluginManifestPane>,
        | call_requires(workspaces, (w, a, c, v, p)),
    ensures
        sections_outcome(rules, link, workspaces, raw, r),
{
    let build = match normalize_builds(rules, raw.build) {
        Ok(build) => build,
        Err(e) => {
            return Err(e);
        },
    };
    let agents = match normalize_agents(rules, raw.agents) {
        Ok(agents) => agents,
        Err(e) => {
            return Err(e);
        },
    };
    let actions = match normalize_actions(rules, raw.actions) {
        Ok(actions) => actions,
        Err(e) => {
            return Err(e);
        },
    };
    let events = match normalize_events(rules, raw.events) {
        Ok(events) => events,
        Err(e) => {
            return Err(e);
        },
    };
    let panes = match normalize_panes(rules, raw.panes) {
        Ok(panes) => panes,
        Err(e) => {
            return Err(e);
        },
    };
    let links = match normalize_unique_section(raw.links, link, "plugin link handler") {
        Ok(links) => links,
        Err(e) => {
            return Err(e);
        },
    };
    proof {
        assert(links_outcome(link, raw.links@, Ok(links)));
    }
    let spaces = match workspaces(raw.workspaces, &agents, &actions, &events, &panes) {
        Ok(spaces) => spaces,
        Err(e) => {
            return Err(e);
        },
    };
    proof {
        assert(call_ensures(
            workspaces,
            (raw.workspaces, &agents, &actions, &events, &panes),
            Ok(spaces),
        ));
    }
    let widgets = match normalize_widgets(rules, raw.widgets) {
        Ok(widgets) => widgets,
        Err(e) => {
            return Err(e);
        },
    };
    Ok(
        ManifestSections {
            build,
            agents,
            actions,
            events,
            panes,
            links,
            workspaces: spaces,
            widgets,
        },
    )
}

fn normalize_builds<
    I: Fn(&String, bool, &'static str) -> Result<String, PluginManifestError>,
    N: Fn(&String, &'static str) -> Result<String, PluginManifestError>,
    T: Fn(&String) -> Option<String>,
    C: Fn(&Vec<String>) -> Result<Vec<String>, PluginManifestError>,
>(rules: &FieldRules<I, N, T, C>, raw: Vec<RawPluginManifestBuild>) -> (r: Result<
    Vec<PluginManifestBuild>,
    PluginManifestError,
>)
    requires
        answers_all(rules),
    ensures
        ({
            let one: Outcome<RawPluginManifestBuild, PluginManifestBuild> = |x, res|
                build_outcome(rules, x, res);
            match r {
                Ok(out) => entries_pass_as(one, raw@, out@),
                Err(e) => entries_fail(one, raw@, e),
            }
        }),
{
    let normalize = |x: RawPluginManifestBuild| -> (res: Result<
        PluginManifestBuild,
        PluginManifestError,
    >)
        requires
            answers_all(rules),
        ensures
            build_outcome(rules, x, res),
        { normalize_build(rules, x) };
    let r = normalize_entries(raw, &normalize);
    proof {
        let one: Outcome<RawPluginManifestBuild, PluginManifestBuild> = |x, res|
            build_outcome(rules, x, res);
        let called: Outcome<RawPluginManifestBuild, PluginManifestBuild> = |x, res|
            call_ensures(normalize, (x,), res);
        match &r {
            Ok(out) => {
                assert forall|i: int| 0 <= i < raw@.len() implies one(
                    #[trigger] raw@[i],
                    Ok(out@[i]),
                ) by {
                    assert(called(raw@[i], Ok(out@[i])));
                }
            },
            Err(e) => {
                lemma_fail_weaken(called, one, raw@, *e);
            },
        }
    }
    r
}

fn normalize_agents<
    I: Fn(&String, bool, &'static str) -> Result<String, PluginManifestError>,
    N: Fn(&String, &'static str) -> Result<String, PluginManifestError>,
    T: Fn(&String) -> Option<String>,
    C: Fn(&Vec<String>) -> Result<Vec<String>, PluginManifestError>,
>(rules: &FieldRules<I, N, T, C>, raw: Vec<RawPluginManifestAgent>) -> (r: Result<
    Vec<PluginManifestAgent>,
    PluginManifestError,
>)
    requires
        answers_all(rules),
    ensures
        agents_outcome(rules, raw@, r),
{
    let normalize = |x: RawPluginManifestAgent| -> (res: Result<
        PluginManifestAgent,
        PluginManifestError,
    >)
        requires
            answers_all(rules),
        ensures
            agent_outcome(rules, x, res),
        { normalize_agent(rules, x) };
    let r = normalize_unique_section(raw, normalize, "plugin agent");
    proof {
        lemma_section_weaken(
            |x: RawPluginManifestAgent, res: Result<PluginManifestAgent, PluginManifestError>|
                call_ensures(normalize, (x,), res),
            |x: RawPluginManifestAgent, res: Result<PluginManifestAgent, PluginManifestError>|
                agent_outcome(rules, x, res),
            raw@,
            "plugin agent"@,
            r,
        );
    }
    r
}

fn normalize_actions<
    I: Fn(&String, bool, &'static str) -> Result<String, PluginManifestError>,
    N: Fn(&String, &'static str) -> Result<String, PluginManifestError>,
    T: Fn(&String) -> Option<String>,
    C: Fn(&Vec<String>) -> Result<Vec<String>, PluginManifestError>,
>(rules: &FieldRules<I, N, T, C>, raw: Vec<RawPluginManifestAction>) -> (r: Result<
    Vec<PluginManifestAction>,
    PluginManifestError,
>)
    requires
        answers_all(rules),
    ensures
        actions_outcome(rules, raw@, r),
{
    let normalize = |x: RawPluginManifestAction| -> (res: Result<
        PluginManifestAction,
        PluginManifestError,
    >)
        requires
            answers_all(rules),
        ensures
            action_outcome(rules, x, res),
        { normalize_action(rules, x) };
    let r = normalize_unique_section(raw, normalize, "plugin action");
    proof {
        lemma_section_weaken(
            |x: RawPluginManifestAction, res: Result<PluginManifestAction, PluginManifestError>|
                call_ensures(normalize, (x,), res),
            |x: RawPluginManifestAction, res: Result<PluginManifestAction, PluginManifestError>|
                action_outcome(rules, x, res),
            raw@,
            "plugin action"@,
            r,
        );
    }
    r
}

fn normalize_events<
    I: Fn(&String, bool, &'static str) -> Result<String, PluginManifestError>,
    N: Fn(&String, &'static str) -> Result<String, PluginManifestError>,
    T: Fn(&String) -> Option<String>,
    C: Fn(&Vec<String>) -> Result<Vec<String>, PluginManifestError>,
>(rules: &FieldRules<I, N, T, C>, raw: Vec<RawPluginManifestEvent>) -> (r: Result<
    Vec<PluginManifestEvent>,
    PluginManifestError,
>)
    requires
        answers_all(rules),
    ensures
        events_outcome(rules, raw@, r),
{
    let normalize = |x: RawPluginManifestEvent| -> (res: Result<
        PluginManifestEvent,
        PluginManifestError,
    >)
        requires
            answers_all(rules),
        ensures
            event_outcome(rules, x, res),
        { normalize_event(rules, x) };
    let r = normalize_unique_section(raw, normalize, "plugin event");
    proof {
        lemma_section_weaken(
            |x: RawPluginManifestEvent, res: Result<PluginManifestEvent, PluginManifestError>|
                call_ensures(normalize, (x,), res),
            |x: RawPluginManifestEvent, res: Result<PluginManifestEvent, PluginManifestError>|
                event_outcome(rules, x, res),
            raw@,
            "plugin event"@,
            r,
        );
    }
    r
}

fn normalize_panes<
    I: Fn(&String, bool, &'static str) -> Result<String, PluginManifestError>,
    N: Fn(&String, &'static str) -> Result<String, PluginManifestError>,
    T: Fn(&String) -> Option<String>,
    C: Fn(&Vec<String>) -> Result<Vec<String>, PluginManifestError>,
>(rules: &FieldRules<I, N, T, C>, raw: Vec<RawPluginManifestPane>) -> (r: Result<
    Vec<PluginManifestPane>,
    PluginManifestError,
>)
    requires
        answers_all(rules),
    ensures
        panes_outcome(rules, raw@, r),
{
    let normalize = |x: RawPluginManifestPane| -> (res: Result<
        PluginManifestPane,
        PluginManifestError,
    >)
        requires
            answers_all(rules),
        ensures
            pane_outcome(rules, x, res),
        { normalize_pane(rules, x) };
    let r = normalize_unique_section(raw, normalize, "plugin pane");
    proof {
        lemma_section_weaken(
            |x: RawPluginManifestPane, res: Result<PluginManifestPane, PluginManifestError>|
                call_ensures(normalize, (x,), res),
            |x: RawPluginManifestPane, res: Result<PluginManifestPane, PluginManifestError>|
                pane_outcome(rules, x, res),
            raw@,
            "plugin pane"@,
            r,
        );
    }
    r
}

fn normalize_widgets<
    O,
    I: Fn(&String, bool, &'static str) -> Result<String, PluginManifestError>,
    N: Fn(&String, &'static str) -> Result<String, PluginManifestError>,
    T: Fn(&String) -> Option<String>,
    C: Fn(&Vec<String>) -> Result<Vec<String>, PluginManifestError>,
>(rules: &FieldRules<I, N, T, C>, raw: Vec<RawPluginManifestWidget<O>>) -> (r: Result<
    Vec<PluginManifestWidget<O>>,
    PluginManifestError,
>)
    requires
        answers_all(rules),
    ensures
        widgets_outcome(rules, raw@, r),
{
    let normalize = |x: RawPluginManifestWidget<O>| -> (res: Result<
        PluginManifestWidget<O>,
        PluginManifestError,
    >)
        requires
            answers_all(rules),
        ensures
            widget_outcome(rules, x, res),
        { normalize_widget(rules, x) };
    let r = normalize_unique_section(raw, normalize, "plugin widget");
    proof {
        lemma_section_weaken(
            |x: RawPluginManifestWidget<O>, res: Result<PluginManifestWidget<O>, PluginManifestError>|
                call_ensures(normalize, (x,), res),
            |x: RawPluginManifestWidget<O>, res: Result<PluginManifestWidget<O>, PluginManifestError>|
                widget_outcome(rules, x, res),
            raw@,
            "plugin widget"@,
            r,
        );
    }
    r
}

/// The outcome of loading a manifest: a path without a parent is refused first,
/// then a file that is no manifest, then its identity, then its sections.
/// Platforms and paths are carried over.
pub open spec fn manifest_outcome<
    P,
    L,
    H,
    W,
    X,
    O,
    I: Fn(&String, bool, &'static str) -> Result<String, PluginManifestError>,
    N: Fn(&String, &'static str) -> Result<String, PluginManifestError>,
    T: Fn(&String) -> Option<String>,
    C: Fn(&Vec<String>) -> Result<Vec<String>, PluginManifestError>,
    V: Fn(&String, &String) -> Result<(), PluginManifestError>,
    FL: Fn(L) -> Result<Linked<H>, PluginManifestError>,
    FW: Fn(
        Vec<W>,
        &Vec<PluginManifestAgent>,
        &Vec<PluginManifestAction>,
        &Vec<PluginManifestEvent>,
        &Vec<PluginManifestPane>,
    ) -> Result<Vec<X>, PluginManifestError>,
>(
    source: ManifestSource<P, L, W, O>,
    rules: &FieldRules<I, N, T, C>,
    enforce_floor: V,
    link: FL,
    workspaces: FW,
    r: Result<PluginManifest<P, H, X, O>, PluginManifestError>,
) -> bool {
    match source.plugin_root {
        None => r matches Err(PluginManifestError::Invalid(m)) && m@
            == "manifest path has no parent"@,
        Some(root) => match source.parsed {
            Err(message) => r == Err::<PluginManifest<P, H, X, O>, PluginManifestError>(
                PluginManifestError::Parse { path: source.display_path, message },
            ),
            Ok(raw) => match r {
                Ok(m) => {
                    &&& identity_outcome(rules, enforce_floor, raw, Ok(m.identity))
                    &&& sections_outcome(rules, link, workspaces, raw, Ok(m.sections))
                    &&& m.manifest_path == source.manifest_path
                    &&& m.plugin_root == root
                    &&& m.platforms == raw.platforms
                },
                Err(e) => {
                    ||| identity_outcome(rules, enforce_floor, raw, Err(e))
                    ||| (exists|id: ManifestIdentity| #[trigger]
                        identity_outcome(rules, enforce_floor, raw, Ok(id)))
                        && sections_outcome::<L, H, W, X, O, I, N, T, C, FL, FW>(
                        rules,
                        link,
                        workspaces,
                        raw,
                        Err(e),
                    )
                },
            },
        },
    }
}

/// A manifest file as it was found and parsed.
pub struct ManifestSource<P, L, W, O> {
    /// The file's canonical path.
    pub manifest_path: P,
    /// The directory it is in, if it is in one.
    pub plugin_root: Option<P>,
    /// The path to show in errors.
    pub display_path: String,
    /// The manifest it writes, or why it writes none.
    pub parsed: Result<RawPluginManifest<L, W, O>, String>,
}

/// Normalize a manifest that was read and parsed.
pub fn load_plugin_manifest<
    P,
    L,
    H,
    W,
    X,
    O,
    I: Fn(&String, bool, &'static str) -> Result<String, PluginManifestError>,
    N: Fn(&String, &'static str) -> Result<String, PluginManifestError>,
    T: Fn(&String) -> Option<String>,
    C: Fn(&Vec<String>) -> Result<Vec<String>, PluginManifestError>,
    V: Fn(&String, &String) -> Result<(), PluginManifestError>,
    FL: Fn(L) -> Result<Linked<H>, PluginManifestError>,
    FW: Fn(
        Vec<W>,
        &Vec<PluginManifestAgent>,
        &Vec<PluginManifestAction>,
        &Vec<PluginManifestEvent>,
        &Vec<PluginManifestPane>,
    ) -> Result<Vec<X>, PluginManifestError>,
>(
    source: ManifestSource<P, L, W, O>,
    rules: &FieldRules<I, N, T, C>,
    enforce_floor: V,
    link: FL,
    workspaces: FW,
) -> (r: Result<PluginManifest<P, H, X, O>, PluginManifestError>)
    requires
        answers_all(rules),
        forall|id: &String, floor: &String| call_requires(enforce_floor, (id, floor)),
        forall|l: L| call_requires(link, (l,)),
        forall|
            w: Vec<W>,
            a: &Vec<PluginManifestAgent>,
            c: &Vec<PluginManifestAction>,
            v: &Vec<PluginManifestEvent>,
            p: &Vec<PluginManifestPane>,
        | call_requires(workspaces, (w, a, c, v, p)),
    ensures
        manifest_outcome(source, rules, enforce_floor, link, workspaces, r),
{
    let plugin_root = match source.plugin_root {
        Some(root) => root,
        None => {
            return Err(PluginManifestError::Invalid("manifest path has no parent".to_owned()));
        },
    };
    let mut raw = match source.parsed {
        Ok(raw) => raw,
        Err(message) => {
            return Err(PluginManifestError::Parse { path: source.display_path, message });
        },
    };
    let identity = match normalize_identity(rules, &enforce_floor, &raw) {
        Ok(identity) => identity,
        Err(e) => {
            return Err(e);
        },
    };
    let platforms = raw.platforms.take();
    let sections = match normalize_sections(rules, link, workspaces, raw) {
        Ok(sections) => sections,
        Err(e) => {
            return Err(e);
        },
    };
    Ok(
        PluginManifest {
            identity,
            manifest_path: source.manifest_path,
            plugin_root,
            platforms,
            sections,
        },
    )
}

/// A normalized section keeps every entry in its place and holds no id twice.
pub proof fn law_a_normalized_section_has_distinct_ids<R, T: Identified>(
    one: Outcome<R, T>,
    raw: Seq<R>,
    label: Seq<char>,
    out: Vec<T>,
)
    requires
        section_outcome(one, raw, label, Ok(out)),
    ensures
        out@.len() == raw.len(),
        forall|i: int| 0 <= i < raw.len() ==> one(#[trigger] raw[i], Ok(out@[i])),
        forall|i: int, j: int|
            0 <= i < j < out@.len() ==> (#[trigger] out@[i]).id_text() != (
            #[trigger] out@[j]).id_text(),
{
}

} // verus!
