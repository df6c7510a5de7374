//! What normalizing a manifest keeps, and what refuses it.
use vstd::prelude::*;

use crate::loader::{
    action_outcome, actions_outcome, agent_outcome, agents_outcome, build_outcome, entries_fail,
    entries_pass_as, event_outcome, events_outcome, identity_outcome, is_first_repeat,
    is_repeat_error, links_outcome, manifest_outcome, pane_outcome, panes_outcome, repeat_text,
    section_outcome, sections_outcome, text_passes, widget_outcome, widgets_outcome, FieldRules,
    ManifestSource, Outcome,
};
use crate::plugin::{
    Identified, Linked, ManifestIdentity, PluginManifest, PluginManifestAction,
    PluginManifestAgent, PluginManifestBuild, PluginManifestError, PluginManifestEvent,
    PluginManifestPane, PluginManifestWidget, RawPluginManifest, RawPluginManifestAction,
    RawPluginManifestAgent, RawPluginManifestBuild, RawPluginManifestEvent, RawPluginManifestPane,
    RawPluginManifestWidget,
};

verus! {

/// Every field of a normalized build step is what its rule made of the written one,
/// or the written one where it has no rule.
pub proof fn law_a_build_keeps_its_fields<
    I: Fn(&String, bool, &'static str) -> Result<String, PluginManifestError>,
    N: Fn(&String, &'static str) -> Result<String, PluginManifestError>,
    T: Fn(&String) -> Option<String>,
    C: Fn(&Vec<String>) -> Result<Vec<String>, PluginManifestError>,
>(
    rules: &FieldRules<I, N, T, C>,
    raw: RawPluginManifestBuild,
    out: PluginManifestBuild,
)
    requires
        build_outcome(rules, raw, Ok(out)),
    ensures
        call_ensures(rules.command, (&raw.command,), Ok(out.command)),
        out.platforms == raw.platforms,
{
}

/// A build step is refused with the error of one of its rules, and never with one
/// that is asked after a rule that refuses it whatever it is asked.
pub proof fn law_a_build_is_refused_by_its_first_rule<
    I: Fn(&String, bool, &'static str) -> Result<String, PluginManifestError>,
    N: Fn(&String, &'static str) -> Result<String, PluginManifestError>,
    T: Fn(&String) -> Option<String>,
    C: Fn(&Vec<String>) -> Result<Vec<String>, PluginManifestError>,
>(
    rules: &FieldRules<I, N, T, C>,
    raw: RawPluginManifestBuild,
    e: PluginManifestError,
)
    requires
        build_outcome::<I, N, T, C>(rules, raw, Err(e)),
    ensures
        call_ensures(rules.command, (&raw.command,), Err(e)),
{
}

/// Every field of a normalized agent is what its rule made of the written one,
/// or the written one where it has no rule.
pub proof fn law_an_agent_keeps_its_fields<
    I: Fn(&String, bool, &'static str) -> Result<String, PluginManifestError>,
    N: Fn(&String, &'static str) -> Result<String, PluginManifestError>,
    T: Fn(&String) -> Option<String>,
    C: Fn(&Vec<String>) -> Result<Vec<String>, PluginManifestError>,
>(
    rules: &FieldRules<I, N, T, C>,
    raw: RawPluginManifestAgent,
    out: PluginManifestAgent,
)
    requires
        agent_outcome(rules, raw, Ok(out)),
    ensures
        out.contexts@.len() == raw.contexts@.len(),
        forall|i: int|
            0 <= i < raw.contexts@.len() ==> call_ensures(
                rules.required,
                (&#[trigger] raw.contexts@[i], "plugin agent context"),
                Ok(out.contexts@[i]),
            ),
        call_ensures(rules.id, (&raw.id, false, "plugin agent id"), Ok(out.id)),
        call_ensures(rules.required, (&raw.label, "plugin agent label"), Ok(out.label)),
        raw.description is Some
            ==> call_ensures(rules.optional, (&raw.description->0,), out.description),
        raw.description is None ==> out.description is None,
        out.state == raw.state,
        out.attention == raw.attention,
{
}

/// An agent is refused with the error of one of its rules, and never with one
/// that is asked after a rule that refuses it whatever it is asked.
pub proof fn law_an_agent_is_refused_by_its_first_rule<
    I: Fn(&String, bool, &'static str) -> Result<String, PluginManifestError>,
    N: Fn(&String, &'static str) -> Result<String, PluginManifestError>,
    T: Fn(&String) -> Option<String>,
    C: Fn(&Vec<String>) -> Result<Vec<String>, PluginManifestError>,
>(
    rules: &FieldRules<I, N, T, C>,
    raw: RawPluginManifestAgent,
    e: PluginManifestError,
)
    requires
        agent_outcome::<I, N, T, C>(rules, raw, Err(e)),
    ensures
        (exists|k: int|
            {
                &&& 0 <= k < raw.contexts@.len()
                &&& call_ensures(
                    rules.required,
                    (&#[trigger] raw.contexts@[k], "plugin agent context"),
                    Err(e),
                )
                &&& forall|j: int|
                    0 <= j < k ==> text_passes(
                        rules,
                        #[trigger] raw.contexts@[j],
                        "plugin agent context",
                    )
            })
            || call_ensures(rules.id, (&raw.id, false, "plugin agent id"), Err(e))
            || call_ensures(rules.required, (&raw.label, "plugin agent label"), Err(e)),
        (forall|s: String| !#[trigger] call_ensures(rules.id, (&raw.id, false, "plugin agent id"), Ok(s)))
            ==> (exists|k: int|
            {
                &&& 0 <= k < raw.contexts@.len()
                &&& call_ensures(
                    rules.required,
                    (&#[trigger] raw.contexts@[k], "plugin agent context"),
                    Err(e),
                )
                &&& forall|j: int|
                    0 <= j < k ==> text_passes(
                        rules,
                        #[trigger] raw.contexts@[j],
                        "plugin agent context",
                    )
            }) || call_ensures(rules.id, (&raw.id, false, "plugin agent id"), Err(e)),
{
}

/// Every field of a normalized action is what its rule made of the written one,
/// or the written one where it has no rule.
pub proof fn law_an_action_keeps_its_fields<
    I: Fn(&String, bool, &'static str) -> Result<String, PluginManifestError>,
    N: Fn(&String, &'static str) -> Result<String, PluginManifestError>,
    T: Fn(&String) -> Option<String>,
    C: Fn(&Vec<String>) -> Result<Vec<String>, PluginManifestError>,
>(
    rules: &FieldRules<I, N, T, C>,
    raw: RawPluginManifestAction,
    out: PluginManifestAction,
)
    requires
        action_outcome(rules, raw, Ok(out)),
    ensures
        out.contexts@.len() == raw.contexts@.len(),
        forall|i: int|
            0 <= i < raw.contexts@.len() ==> call_ensures(
                rules.required,
                (&#[trigger] raw.contexts@[i], "plugin action context"),
                Ok(out.contexts@[i]),
            ),
        call_ensures(rules.command, (&raw.command,), Ok(out.command)),
        call_ensures(rules.id, (&raw.id, false, "plugin action id"), Ok(out.id)),
        call_ensures(rules.required, (&raw.title, "plugin action title"), Ok(out.title)),
        raw.description is Some
            ==> call_ensures(rules.optional, (&raw.description->0,), out.description),
        raw.description is None ==> out.description is None,
        raw.keys is Some ==> call_ensures(rules.optional, (&raw.keys->0,), out.keys),
        raw.keys is None ==> out.keys is None,
        out.platforms == raw.platforms,
{
}

/// An action is refused with the error of one of its rules, and never with one
/// that is asked after a rule that refuses it whatever it is asked.
pub proof fn law_an_action_is_refused_by_its_first_rule<
    I: Fn(&String, bool, &'static str) -> Result<String, PluginManifestError>,
    N: Fn(&String, &'static str) -> Result<String, PluginManifestError>,
    T: Fn(&String) -> Option<String>,
    C: Fn(&Vec<String>) -> Result<Vec<String>, PluginManifestError>,
>(
    rules: &FieldRules<I, N, T, C>,
    raw: RawPluginManifestAction,
    e: PluginManifestError,
)
    requires
        action_outcome::<I, N, T, C>(rules, raw, Err(e)),
    ensures
        (exists|k: int|
            {
                &&& 0 <= k < raw.contexts@.len()
                &&& call_ensures(
                    rules.required,
                    (&#[trigger] raw.contexts@[k], "plugin action context"),
                    Err(e),
                )
                &&& forall|j: int|
                    0 <= j < k ==> text_passes(
                        rules,
                        #[trigger] raw.contexts@[j],
                        "plugin action context",
                    )
            })
            || call_ensures(rules.command, (&raw.command,), Err(e))
            || call_ensures(rules.id, (&raw.id, false, "plugin action id"), Err(e))
            || call_ensures(rules.required, (&raw.title, "plugin action title"), Err(e)),
        (forall|c: Vec<String>| !#[trigger] call_ensures(rules.command, (&raw.command,), Ok(c)))
            ==> (exists|k: int|
            {
                &&& 0 <= k < raw.contexts@.len()
                &&& call_ensures(
                    rules.required,
                    (&#[trigger] raw.contexts@[k], "plugin action context"),
                    Err(e),
                )
                &&& forall|j: int|
                    0 <= j < k ==> text_passes(
                        rules,
                        #[trigger] raw.contexts@[j],
                        "plugin action context",
                    )
            }) || call_ensures(rules.command, (&raw.command,), Err(e)),
        (forall|s: String| !#[trigger] call_ensures(rules.id, (&raw.id, false, "plugin action id"), Ok(s)))
            ==> (exists|k: int|
            {
                &&& 0 <= k < raw.contexts@.len()
                &&& call_ensures(
                    rules.required,
                    (&#[trigger] raw.contexts@[k], "plugin action context"),
                    Err(e),
                )
                &&& forall|j: int|
                    0 <= j < k ==> text_passes(
                        rules,
                        #[trigger] raw.contexts@[j],
                        "plugin action context",
                    )
            })
            || call_ensures(rules.command, (&raw.command,), Err(e))
            || call_ensures(rules.id, (&raw.id, false, "plugin action id"), Err(e)),
{
}

/// Every field of a normalized event hook is what its rule made of the written one,
/// or the written one where it has no rule.
pub proof fn law_an_event_keeps_its_fields<
    I: Fn(&String, bool, &'static str) -> Result<String, PluginManifestError>,
    N: Fn(&String, &'static str) -> Result<String, PluginManifestError>,
    T: Fn(&String) -> Option<String>,
    C: Fn(&Vec<String>) -> Result<Vec<String>, PluginManifestError>,
>(
    rules: &FieldRules<I, N, T, C>,
    raw: RawPluginManifestEvent,
    out: PluginManifestEvent,
)
    requires
        event_outcome(rules, raw, Ok(out)),
    ensures
        call_ensures(rules.command, (&raw.command,), Ok(out.command)),
        call_ensures(rules.id, (&raw.id, false, "plugin event id"), Ok(out.id)),
        call_ensures(rules.required, (&raw.title, "plugin event title"), Ok(out.title)),
        call_ensures(rules.required, (&raw.on, "plugin event name"), Ok(out.on)),
        raw.description is Some
            ==> call_ensures(rules.optional, (&raw.description->0,), out.description),
        raw.description is None ==> out.description is None,
        out.platforms == raw.platforms,
{
}

/// An event hook is refused with the error of one of its rules, and never with one
/// that is asked after a rule that refuses it whatever it is asked.
pub proof fn law_an_event_is_refused_by_its_first_rule<
    I: Fn(&String, bool, &'static str) -> Result<String, PluginManifestError>,
    N: Fn(&String, &'static str) -> Result<String, PluginManifestError>,
    T: Fn(&String) -> Option<String>,
    C: Fn(&Vec<String>) -> Result<Vec<String>, PluginManifestError>,
>(
    rules: &FieldRules<I, N, T, C>,
    raw: RawPluginManifestEvent,
    e: PluginManifestError,
)
    requires
        event_outcome::<I, N, T, C>(rules, raw, Err(e)),
    ensures
        call_ensures(rules.command, (&raw.command,), Err(e))
            || call_ensures(rules.id, (&raw.id, false, "plugin event id"), Err(e))
            || call_ensures(rules.required, (&raw.title, "plugin event title"), Err(e))
            || call_ensures(rules.required, (&raw.on, "plugin event name"), Err(e)),
        (forall|c: Vec<String>| !#[trigger] call_ensures(rules.command, (&raw.command,), Ok(c)))
            ==> call_ensures(rules.command, (&raw.command,), Err(e)),
        (forall|s: String| !#[trigger] call_ensures(rules.id, (&raw.id, false, "plugin event id"), Ok(s)))
            ==> call_ensures(rules.command, (&raw.command,), Err(e))
            || call_ensures(rules.id, (&raw.id, false, "plugin event id"), Err(e)),
        (forall|s: String| !#[trigger] call_ensures(rules.required, (&raw.title, "plugin event title"), Ok(s)))
            ==> call_ensures(rules.command, (&raw.command,), Err(e))
            || call_ensures(rules.id, (&raw.id, false, "plugin event id"), Err(e))
            || call_ensures(rules.required, (&raw.title, "plugin event title"), Err(e)),
{
}

/// Every field of a normalized pane is what its rule made of the written one,
/// or the written one where it has no rule.
pub proof fn law_a_pane_keeps_its_fields<
    I: Fn(&String, bool, &'static str) -> Result<String, PluginManifestError>,
    N: Fn(&String, &'static str) -> Result<String, PluginManifestError>,
    T: Fn(&String) -> Option<String>,
    C: Fn(&Vec<String>) -> Result<Vec<String>, PluginManifestError>,
>(
    rules: &FieldRules<I, N, T, C>,
    raw: RawPluginManifestPane,
    out: PluginManifestPane,
)
    requires
        pane_outcome(rules, raw, Ok(out)),
    ensures
        call_ensures(rules.command, (&raw.command,), Ok(out.command)),
        call_ensures(rules.id, (&raw.id, false, "plugin pane id"), Ok(out.id)),
        call_ensures(rules.required, (&raw.title, "plugin pane title"), Ok(out.title)),
        raw.description is Some
            ==> call_ensures(rules.optional, (&raw.description->0,), out.description),
        raw.description is None ==> out.description is None,
        out.platforms == raw.platforms,
        out.placement == raw.placement,
{
}

/// A pane is refused with the error of one of its rules, and never with one
/// that is asked after a rule that refuses it whatever it is asked.
pub proof fn law_a_pane_is_refused_by_its_first_rule<
    I: Fn(&String, bool, &'static str) -> Result<String, PluginManifestError>,
    N: Fn(&String, &'static str) -> Result<String, PluginManifestError>,
    T: Fn(&String) -> Option<String>,
    C: Fn(&Vec<String>) -> Result<Vec<String>, PluginManifestError>,
>(
    rules: &FieldRules<I, N, T, C>,
    raw: RawPluginManifestPane,
    e: PluginManifestError,
)
    requires
        pane_outcome::<I, N, T, C>(rules, raw, Err(e)),
    ensures
        call_ensures(rules.command, (&raw.command,), Err(e))
            || call_ensures(rules.id, (&raw.id, false, "plugin pane id"), Err(e))
            || call_ensures(rules.required, (&raw.title, "plugin pane title"), Err(e)),
        (forall|c: Vec<String>| !#[trigger] call_ensures(rules.command, (&raw.command,), Ok(c)))
            ==> call_ensures(rules.command, (&raw.command,), Err(e)),
        (forall|s: String| !#[trigger] call_ensures(rules.id, (&raw.id, false, "plugin pane id"), Ok(s)))
            ==> call_ensures(rules.command, (&raw.command,), Err(e))
            || call_ensures(rules.id, (&raw.id, false, "plugin pane id"), Err(e)),
{
}

/// Every field of a normalized widget is what its rule made of the written one,
/// or the written one where it has no rule.
pub proof fn law_a_widget_keeps_its_fields<
    O,
    I: Fn(&String, bool, &'static str) -> Result<String, PluginManifestError>,
    N: Fn(&String, &'static str) -> Result<String, PluginManifestError>,
    T: Fn(&String) -> Option<String>,
    C: Fn(&Vec<String>) -> Result<Vec<String>, PluginManifestError>,
>(
    rules: &FieldRules<I, N, T, C>,
    raw: RawPluginManifestWidget<O>,
    out: PluginManifestWidget<O>,
)
    requires
        widget_outcome(rules, raw, Ok(out)),
    ensures
        call_ensures(rules.id, (&raw.id, false, "plugin widget id"), Ok(out.id)),
        call_ensures(rules.required, (&raw.kind, "plugin widget kind"), Ok(out.kind)),
        out.slot == raw.slot,
        out.opts == raw.opts,
{
}

/// A widget is refused with the error of one of its rules, and never with one
/// that is asked after a rule that refuses it whatever it is asked.
pub proof fn law_a_widget_is_refused_by_its_first_rule<
    O,
    I: Fn(&String, bool, &'static str) -> Result<String, PluginManifestError>,
    N: Fn(&String, &'static str) -> Result<String, PluginManifestError>,
    T: Fn(&String) -> Option<String>,
    C: Fn(&Vec<String>) -> Result<Vec<String>, PluginManifestError>,
>(
    rules: &FieldRules<I, N, T, C>,
    raw: RawPluginManifestWidget<O>,
    e: PluginManifestError,
)
    requires
        widget_outcome::<O, I, N, T, C>(rules, raw, Err(e)),
    ensures
        call_ensures(rules.id, (&raw.id, false, "plugin widget id"), Err(e))
            || call_ensures(rules.required, (&raw.kind, "plugin widget kind"), Err(e)),
        (forall|s: String| !#[trigger] call_ensures(rules.id, (&raw.id, false, "plugin widget id"), Ok(s)))
            ==> call_ensures(rules.id, (&raw.id, false, "plugin widget id"), Err(e)),
{
}

/// A repeated id is refused in these words, naming the section and the first id
/// that an earlier entry has; a section without one and without a refused entry
/// is accepted.
pub proof fn law_a_repeated_id_is_named<R, T: Identified>(
    one: Outcome<R, T>,
    raw: Seq<R>,
    label: Seq<char>,
    e: PluginManifestError,
)
    requires
        section_outcome::<R, T>(one, raw, label, Err(e)),
        forall|i: int, x: PluginManifestError|
            0 <= i < raw.len() ==> !#[trigger] one(raw[i], Err(x)),
    ensures
        exists|out: Seq<T>, j: int, k: int|
            {
                &&& out.len() == raw.len()
                &&& forall|i: int| 0 <= i < raw.len() ==> one(#[trigger] raw[i], Ok(out[i]))
                &&& 0 <= j < k < out.len()
                &&& (#[trigger] out[j]).id_text() == (#[trigger] out[k]).id_text()
                &&& forall|a: int, b: int|
                    0 <= a < b < k ==> (#[trigger] out[a]).id_text() != (
                    #[trigger] out[b]).id_text()
                &&& e matches PluginManifestError::Invalid(m) && m@ == "duplicate "@ + label
                    + " id: "@ + out[k].id_text()
            },
{
    if entries_fail(one, raw, e) {
        let k = choose|k: int| 0 <= k < raw.len() && one(#[trigger] raw[k], Err(e));
        assert(!one(raw[k], Err(e)));
    }
    let out = choose|out: Seq<T>| #[trigger]
        entries_pass_as(one, raw, out) && is_repeat_error(out, label, e);
    let m = e->Invalid_0;
    let k = choose|k: int| #[trigger]
        is_first_repeat(out, k) && m@ == repeat_text(label, out[k].id_text());
    let j = choose|j: int| 0 <= j < k && (#[trigger] out[j]).id_text() == out[k].id_text();
    assert forall|a: int, b: int| 0 <= a < b < k implies (#[trigger] out[a]).id_text() != (
    #[trigger] out[b]).id_text() by {
        assert(out.take(k)[a] == out[a]);
        assert(out.take(k)[b] == out[b]);
    }
    assert(out[j].id_text() == out[k].id_text());
}

/// A loaded manifest keeps what was written: its identity by its rules, its
/// platforms and paths as they are, and in each section every entry in its
/// place, normalized by that section's rules, with no id twice.
pub proof fn law_a_loaded_manifest_keeps_everything<
    P,
    L,
    H,
    W,
    X,
    O,
    I: Fn(&String, bool, &'static str) -> Result<String, PluginManifestError>,
    N: Fn(&String, &'static str) -> Result<String, PluginManifestError>,
    T: Fn(&String) -> Option<String>,
    C: Fn(&Vec<String>) -> Result<Vec<String>, PluginManifestError>,
    V: Fn(&String, &String) -> Result<(), PluginManifestError>,
    FL: Fn(L) -> Result<Linked<H>, PluginManifestError>,
    FW: Fn(
        Vec<W>,
        &Vec<PluginManifestAgent>,
        &Vec<PluginManifestAction>,
        &Vec<PluginManifestEvent>,
        &Vec<PluginManifestPane>,
    ) -> Result<Vec<X>, PluginManifestError>,
>(
    source: ManifestSource<P, L, W, O>,
    rules: &FieldRules<I, N, T, C>,
    enforce_floor: V,
    link: FL,
    workspaces: FW,
    m: PluginManifest<P, H, X, O>,
)
    requires
        manifest_outcome(source, rules, enforce_floor, link, workspaces, Ok(m)),
    ensures
        source.plugin_root == Some(m.plugin_root),
        source.parsed is Ok,
        m.manifest_path == source.manifest_path,
        ({
            let raw = source.parsed->Ok_0;
            &&& m.platforms == raw.platforms
            &&& call_ensures(rules.id, (&raw.id, true, "plugin id"), Ok(m.identity.id))
            &&& call_ensures(rules.required, (&raw.name, "plugin name"), Ok(m.identity.name))
            &&& call_ensures(
                rules.required,
                (&raw.version, "plugin version"),
                Ok(m.identity.version),
            )
            &&& call_ensures(
                rules.required,
                (&raw.min_phux_version, "plugin min_phux_version"),
                Ok(m.identity.min_phux_version),
            )
            &&& call_ensures(
                enforce_floor,
                (&m.identity.id, &m.identity.min_phux_version),
                Ok(()),
            )
            &&& raw.description is Some ==> call_ensures(
                rules.optional,
                (&raw.description->0,),
                m.identity.description,
            )
            &&& raw.description is None ==> m.identity.description is None
            &&& m.sections.build@.len() == raw.build@.len()
            &&& forall|i: int|
                0 <= i < raw.build@.len() ==> build_outcome(
                    rules,
                    #[trigger] raw.build@[i],
                    Ok(m.sections.build@[i]),
                )
            &&& m.sections.agents@.len() == raw.agents@.len()
            &&& forall|i: int|
                0 <= i < raw.agents@.len() ==> agent_outcome(
                    rules,
                    #[trigger] raw.agents@[i],
                    Ok(m.sections.agents@[i]),
                )
            &&& m.sections.actions@.len() == raw.actions@.len()
            &&& forall|i: int|
                0 <= i < raw.actions@.len() ==> action_outcome(
                    rules,
                    #[trigger] raw.actions@[i],
                    Ok(m.sections.actions@[i]),
                )
            &&& m.sections.events@.len() == raw.events@.len()
            &&& forall|i: int|
                0 <= i < raw.events@.len() ==> event_outcome(
                    rules,
                    #[trigger] raw.events@[i],
                    Ok(m.sections.events@[i]),
                )
            &&& m.sections.panes@.len() == raw.panes@.len()
            &&& forall|i: int|
                0 <= i < raw.panes@.len() ==> pane_outcome(
                    rules,
                    #[trigger] raw.panes@[i],
                    Ok(m.sections.panes@[i]),
                )
            &&& m.sections.links@.len() == raw.links@.len()
            &&& forall|i: int|
                0 <= i < raw.links@.len() ==> call_ensures(
                    link,
                    (#[trigger] raw.links@[i],),
                    Ok(m.sections.links@[i]),
                )
            &&& call_ensures(
                workspaces,
                (
                    raw.workspaces,
                    &m.sections.agents,
                    &m.sections.actions,
                    &m.sections.events,
                    &m.sections.panes,
                ),
                Ok(m.sections.workspaces),
            )
            &&& m.sections.widgets@.len() == raw.widgets@.len()
            &&& forall|i: int|
                0 <= i < raw.widgets@.len() ==> widget_outcome(
                    rules,
                    #[trigger] raw.widgets@[i],
                    Ok(m.sections.widgets@[i]),
                )
        }),
        forall|i: int, j: int|
            0 <= i < j < m.sections.agents@.len() ==> (#[trigger] m.sections.agents@[i]).id@ != (
            #[trigger] m.sections.agents@[j]).id@,
        forall|i: int, j: int|
            0 <= i < j < m.sections.actions@.len() ==> (#[trigger] m.sections.actions@[i]).id@ != (
            #[trigger] m.sections.actions@[j]).id@,
        forall|i: int, j: int|
            0 <= i < j < m.sections.events@.len() ==> (#[trigger] m.sections.events@[i]).id@ != (
            #[trigger] m.sections.events@[j]).id@,
        forall|i: int, j: int|
            0 <= i < j < m.sections.panes@.len() ==> (#[trigger] m.sections.panes@[i]).id@ != (
            #[trigger] m.sections.panes@[j]).id@,
        forall|i: int, j: int|
            0 <= i < j < m.sections.links@.len() ==> (#[trigger] m.sections.links@[i]).id@ != (
            #[trigger] m.sections.links@[j]).id@,
        forall|i: int, j: int|
            0 <= i < j < m.sections.widgets@.len() ==> (#[trigger] m.sections.widgets@[i]).id@ != (
            #[trigger] m.sections.widgets@[j]).id@,
{
    let raw = source.parsed->Ok_0;
    let s = m.sections;
    assert forall|i: int| 0 <= i < raw.links@.len() implies call_ensures(
        link,
        (#[trigger] raw.links@[i],),
        Ok(s.links@[i]),
    ) by {}
    assert forall|i: int, j: int| 0 <= i < j < s.agents@.len() implies (#[trigger] s.agents@[i]).id@
        != (#[trigger] s.agents@[j]).id@ by {
        assert(s.agents@[i].id_text() != s.agents@[j].id_text());
    }
    assert forall|i: int, j: int| 0 <= i < j < s.actions@.len() implies (
    #[trigger] s.actions@[i]).id@ != (#[trigger] s.actions@[j]).id@ by {
        assert(s.actions@[i].id_text() != s.actions@[j].id_text());
    }
    assert forall|i: int, j: int| 0 <= i < j < s.events@.len() implies (#[trigger] s.events@[i]).id@
        != (#[trigger] s.events@[j]).id@ by {
        assert(s.events@[i].id_text() != s.events@[j].id_text());
    }
    assert forall|i: int, j: int| 0 <= i < j < s.panes@.len() implies (#[trigger] s.panes@[i]).id@
        != (#[trigger] s.panes@[j]).id@ by {
        assert(s.panes@[i].id_text() != s.panes@[j].id_text());
    }
    assert forall|i: int, j: int| 0 <= i < j < s.links@.len() implies (#[trigger] s.links@[i]).id@
        != (#[trigger] s.links@[j]).id@ by {
        assert(s.links@[i].id_text() != s.links@[j].id_text());
    }
    assert forall|i: int, j: int| 0 <= i < j < s.widgets@.len() implies (
    #[trigger] s.widgets@[i]).id@ != (#[trigger] s.widgets@[j]).id@ by {
        assert(s.widgets@[i].id_text() != s.widgets@[j].id_text());
    }
}

/// The sections are taken in order: build steps, agents, actions, events, panes,
/// links, workspaces, widgets. A manifest is refused with the error of one of
/// them, and never with that of one behind a section that is refused whatever
/// its rules are asked.
pub proof fn law_sections_are_refused_in_order<
    L,
    H,
    W,
    X,
    O,
    I: Fn(&String, bool, &'static str) -> Result<String, PluginManifestError>,
    N: Fn(&String, &'static str) -> Result<String, PluginManifestError>,
    T: Fn(&String) -> Option<String>,
    C: Fn(&Vec<String>) -> Result<Vec<String>, PluginManifestError>,
    FL: Fn(L) -> Result<Linked<H>, PluginManifestError>,
    FW: Fn(
        Vec<W>,
        &Vec<PluginManifestAgent>,
        &Vec<PluginManifestAction>,
        &Vec<PluginManifestEvent>,
        &Vec<PluginManifestPane>,
    ) -> Result<Vec<X>, PluginManifestError>,
>(
    rules: &FieldRules<I, N, T, C>,
    link: FL,
    workspaces: FW,
    raw: RawPluginManifest<L, W, O>,
    e: PluginManifestError,
)
    requires
        sections_outcome::<L, H, W, X, O, I, N, T, C, FL, FW>(
            rules,
            link,
            workspaces,
            raw,
            Err(e),
        ),
    ensures
        (forall|v: Vec<PluginManifestAgent>| !#[trigger] agents_outcome(rules, raw.agents@, Ok(v)))
            ==> (exists|k: int|
            0 <= k < raw.build@.len() && build_outcome(rules, #[trigger] raw.build@[k], Err(e)))
            || agents_outcome(rules, raw.agents@, Err(e)),
        (forall|v: Vec<PluginManifestAction>| !#[trigger] actions_outcome(rules, raw.actions@, Ok(v)))
            ==> (exists|k: int|
            0 <= k < raw.build@.len() && build_outcome(rules, #[trigger] raw.build@[k], Err(e)))
            || agents_outcome(rules, raw.agents@, Err(e))
            || actions_outcome(rules, raw.actions@, Err(e)),
        (forall|v: Vec<PluginManifestEvent>| !#[trigger] events_outcome(rules, raw.events@, Ok(v)))
            ==> (exists|k: int|
            0 <= k < raw.build@.len() && build_outcome(rules, #[trigger] raw.build@[k], Err(e)))
            || agents_outcome(rules, raw.agents@, Err(e))
            || actions_outcome(rules, raw.actions@, Err(e))
            || events_outcome(rules, raw.events@, Err(e)),
        (forall|v: Vec<PluginManifestPane>| !#[trigger] panes_outcome(rules, raw.panes@, Ok(v)))
            ==> (exists|k: int|
            0 <= k < raw.build@.len() && build_outcome(rules, #[trigger] raw.build@[k], Err(e)))
            || agents_outcome(rules, raw.agents@, Err(e))
            || actions_outcome(rules, raw.actions@, Err(e))
            || events_outcome(rules, raw.events@, Err(e))
            || panes_outcome(rules, raw.panes@, Err(e)),
        (forall|v: Vec<Linked<H>>| !#[trigger] links_outcome(link, raw.links@, Ok(v)))
            ==> (exists|k: int|
            0 <= k < raw.build@.len() && build_outcome(rules, #[trigger] raw.build@[k], Err(e)))
            || agents_outcome(rules, raw.agents@, Err(e))
            || actions_outcome(rules, raw.actions@, Err(e))
            || events_outcome(rules, raw.events@, Err(e))
            || panes_outcome(rules, raw.panes@, Err(e))
            || links_outcome(link, raw.links@, Err(e)),
        (exists|k: int|
            0 <= k < raw.build@.len() && build_outcome(rules, #[trigger] raw.build@[k], Err(e)))
            || agents_outcome(rules, raw.agents@, Err(e))
            || actions_outcome(rules, raw.actions@, Err(e))
            || events_outcome(rules, raw.events@, Err(e))
            || panes_outcome(rules, raw.panes@, Err(e))
            || links_outcome(link, raw.links@, Err(e))
            || widgets_outcome(rules, raw.widgets@, Err(e))
            || (exists|
                a: Vec<PluginManifestAgent>,
                c: Vec<PluginManifestAction>,
                v: Vec<PluginManifestEvent>,
                p: Vec<PluginManifestPane>,
            |
            {
                &&& #[trigger] agents_outcome(rules, raw.agents@, Ok(a))
                &&& #[trigger] actions_outcome(rules, raw.actions@, Ok(c))
                &&& #[trigger] events_outcome(rules, raw.events@, Ok(v))
                &&& #[trigger] panes_outcome(rules, raw.panes@, Ok(p))
                &&& call_ensures(workspaces, (raw.workspaces, &a, &c, &v, &p), Err(e))
            }),
{
    let build_one: Outcome<RawPluginManifestBuild, PluginManifestBuild> = |x, res|
        build_outcome(rules, x, res);
    if entries_fail(build_one, raw.build@, e) {
        let k = choose|k: int|
            0 <= k < raw.build@.len() && build_one(#[trigger] raw.build@[k], Err(e));
        assert(build_outcome(rules, raw.build@[k], Err(e)));
    }
}

/// A manifest is refused for its path first, then for not being one, in the
/// parser's words, and only then for what it says.
pub proof fn law_a_manifest_is_refused_from_the_outside_in<
    P,
    L,
    H,
    W,
    X,
    O,
    I: Fn(&String, bool, &'static str) -> Result<String, PluginManifestError>,
    N: Fn(&String, &'static str) -> Result<String, PluginManifestError>,
    T: Fn(&String) -> Option<String>,
    C: Fn(&Vec<String>) -> Result<Vec<String>, PluginManifestError>,
    V: Fn(&String, &String) -> Result<(), PluginManifestError>,
    FL: Fn(L) -> Result<Linked<H>, PluginManifestError>,
    FW: Fn(
        Vec<W>,
        &Vec<PluginManifestAgent>,
        &Vec<PluginManifestAction>,
        &Vec<PluginManifestEvent>,
        &Vec<PluginManifestPane>,
    ) -> Result<Vec<X>, PluginManifestError>,
>(
    source: ManifestSource<P, L, W, O>,
    rules: &FieldRules<I, N, T, C>,
    enforce_floor: V,
    link: FL,
    workspaces: FW,
    r: Result<PluginManifest<P, H, X, O>, PluginManifestError>,
)
    requires
        manifest_outcome(source, rules, enforce_floor, link, workspaces, r),
    ensures
        source.plugin_root is None ==> (r matches Err(PluginManifestError::Invalid(m)) && m@
            == "manifest path has no parent"@),
        source.plugin_root is Some && source.parsed is Err ==> (r matches Err(
            PluginManifestError::Parse { path, message },
        ) && path == source.display_path && message == source.parsed->Err_0),
        source.plugin_root is Some && source.parsed is Ok && r is Err ==> identity_outcome(
            rules,
            enforce_floor,
            source.parsed->Ok_0,
            Err(r->Err_0),
        ) || sections_outcome::<L, H, W, X, O, I, N, T, C, FL, FW>(
            rules,
            link,
            workspaces,
            source.parsed->Ok_0,
            Err(r->Err_0),
        ),
        source.plugin_root is Some && source.parsed is Ok && r is Err && (forall|
            id: ManifestIdentity,
        |
            !#[trigger] identity_outcome(rules, enforce_floor, source.parsed->Ok_0, Ok(id)))
            ==> identity_outcome(rules, enforce_floor, source.parsed->Ok_0, Err(r->Err_0)),
{
}

/// A manifest's identity is refused with the error of one of its rules, or by the
/// version floor, which is asked about the normalized id and floor; a rule that
/// refuses its field whatever it is asked keeps those after it from being the
/// reason.
pub proof fn law_an_identity_is_refused_by_its_first_rule<
    L,
    W,
    O,
    I: Fn(&String, bool, &'static str) -> Result<String, PluginManifestError>,
    N: Fn(&String, &'static str) -> Result<String, PluginManifestError>,
    T: Fn(&String) -> Option<String>,
    C: Fn(&Vec<String>) -> Result<Vec<String>, PluginManifestError>,
    V: Fn(&String, &String) -> Result<(), PluginManifestError>,
>(
    rules: &FieldRules<I, N, T, C>,
    enforce_floor: V,
    raw: RawPluginManifest<L, W, O>,
    e: PluginManifestError,
)
    requires
        identity_outcome(rules, enforce_floor, raw, Err(e)),
    ensures
        ({
            let id = call_ensures(rules.id, (&raw.id, true, "plugin id"), Err(e));
            let name = call_ensures(rules.required, (&raw.name, "plugin name"), Err(e));
            let version = call_ensures(rules.required, (&raw.version, "plugin version"), Err(e));
            let floor = call_ensures(
                rules.required,
                (&raw.min_phux_version, "plugin min_phux_version"),
                Err(e),
            );
            let enforced = exists|i: String, f: String|
                {
                    &&& #[trigger] call_ensures(rules.id, (&raw.id, true, "plugin id"), Ok(i))
                    &&& #[trigger] call_ensures(
                        rules.required,
                        (&raw.min_phux_version, "plugin min_phux_version"),
                        Ok(f),
                    )
                    &&& call_ensures(enforce_floor, (&i, &f), Err(e))
                };
            &&& id || name || version || floor || enforced
            &&& (forall|s: String|
                !#[trigger] call_ensures(rules.id, (&raw.id, true, "plugin id"), Ok(s))) ==> id
            &&& (forall|s: String|
                !#[trigger] call_ensures(rules.required, (&raw.name, "plugin name"), Ok(s)))
                ==> id || name
            &&& (forall|s: String|
                !#[trigger] call_ensures(rules.required, (&raw.version, "plugin version"), Ok(s)))
                ==> id || name || version
        }),
{
}

} // verus!
