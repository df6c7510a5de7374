//! Plugin manifests: what a manifest file writes, and what it is normalized to.
use vstd::prelude::*;

verus! {

/// Why a manifest was not loaded.
#[derive(Debug, PartialEq, Eq)]
pub enum PluginManifestError {
    /// The file could not be read.
    Read { path: String, message: String },
    /// The file is no manifest.
    Parse { path: String, message: String },
    /// The manifest breaks a rule.
    Invalid(String),
}

/// An operating system a section is meant for, by its name.
#[derive(Debug, PartialEq, Eq)]
pub struct PluginPlatform {
    pub name: String,
}

/// The state an agent starts in, by its name.
#[derive(Debug, PartialEq, Eq)]
pub struct PluginAgentState {
    pub name: String,
}

/// Whether an agent starts out waiting on a human, by its name.
#[derive(Debug, PartialEq, Eq)]
pub struct PluginAgentAttention {
    pub name: String,
}

/// Where a pane opens, by its name.
#[derive(Debug, PartialEq, Eq)]
pub struct PluginPanePlacement {
    pub name: String,
}

/// The status-bar slot of a widget, by its name.
#[derive(Debug, PartialEq, Eq)]
pub struct PluginWidgetSlot {
    pub name: String,
}

/// A build step as written.
#[derive(Debug)]
pub struct RawPluginManifestBuild {
    pub platforms: Option<Vec<PluginPlatform>>,
    pub command: Vec<String>,
}

/// A build step.
#[derive(Debug)]
pub struct PluginManifestBuild {
    pub platforms: Option<Vec<PluginPlatform>>,
    pub command: Vec<String>,
}

/// An agent as written.
#[derive(Debug)]
pub struct RawPluginManifestAgent {
    pub id: String,
    pub label: String,
    pub description: Option<String>,
    pub state: PluginAgentState,
    pub attention: PluginAgentAttention,
    pub contexts: Vec<String>,
}

/// An agent.
#[derive(Debug)]
pub struct PluginManifestAgent {
    pub id: String,
    pub label: String,
    pub description: Option<String>,
    pub state: PluginAgentState,
    pub attention: PluginAgentAttention,
    pub contexts: Vec<String>,
}

/// An action as written.
#[derive(Debug)]
pub struct RawPluginManifestAction {
    pub id: String,
    pub title: String,
    pub description: Option<String>,
    pub contexts: Vec<String>,
    pub platforms: Option<Vec<PluginPlatform>>,
    pub command: Vec<String>,
    pub keys: Option<String>,
}

/// An action.
#[derive(Debug)]
pub struct PluginManifestAction {
    pub id: String,
    pub title: String,
    pub description: Option<String>,
    pub contexts: Vec<String>,
    pub platforms: Option<Vec<PluginPlatform>>,
    pub command: Vec<String>,
    pub keys: Option<String>,
}

/// An event hook as written.
#[derive(Debug)]
pub struct RawPluginManifestEvent {
    pub id: String,
    pub title: String,
    pub description: Option<String>,
    pub on: String,
    pub platforms: Option<Vec<PluginPlatform>>,
    pub command: Vec<String>,
}

/// An event hook.
#[derive(Debug)]
pub struct PluginManifestEvent {
    pub id: String,
    pub title: String,
    pub description: Option<String>,
    pub on: String,
    pub platforms: Option<Vec<PluginPlatform>>,
    pub command: Vec<String>,
}

/// A pane as written.
#[derive(Debug)]
pub struct RawPluginManifestPane {
    pub id: String,
    pub title: String,
    pub description: Option<String>,
    pub platforms: Option<Vec<PluginPlatform>>,
    pub placement: PluginPanePlacement,
    pub command: Vec<String>,
}

/// A pane.
#[derive(Debug)]
pub struct PluginManifestPane {
    pub id: String,
    pub title: String,
    pub description: Option<String>,
    pub platforms: Option<Vec<PluginPlatform>>,
    pub placement: PluginPanePlacement,
    pub command: Vec<String>,
}

/// A widget as written. Its options are open: they belong to the widget's kind.
#[derive(Debug)]
pub struct RawPluginManifestWidget<O> {
    pub id: String,
    pub slot: PluginWidgetSlot,
    pub kind: String,
    pub opts: O,
}

/// A widget.
#[derive(Debug)]
pub struct PluginManifestWidget<O> {
    pub id: String,
    pub slot: PluginWidgetSlot,
    pub kind: String,
    pub opts: O,
}

/// A manifest as written. Link handlers are `L`, workspaces `W`, widget options
/// `O`.
#[derive(Debug)]
pub struct RawPluginManifest<L, W, O> {
    pub id: String,
    pub name: String,
    pub version: String,
    pub min_phux_version: String,
    pub description: Option<String>,
    pub platforms: Option<Vec<PluginPlatform>>,
    pub build: Vec<RawPluginManifestBuild>,
    pub agents: Vec<RawPluginManifestAgent>,
    pub actions: Vec<RawPluginManifestAction>,
    pub events: Vec<RawPluginManifestEvent>,
    pub panes: Vec<RawPluginManifestPane>,
    pub links: Vec<L>,
    pub workspaces: Vec<W>,
    pub widgets: Vec<RawPluginManifestWidget<O>>,
}

/// The identity of a manifest.
#[derive(Debug)]
pub struct ManifestIdentity {
    pub id: String,
    pub name: String,
    pub version: String,
    pub min_phux_version: String,
    pub description: Option<String>,
}

/// The repeated sections of a manifest. Link handlers are `H`, workspaces `X`.
#[derive(Debug)]
pub struct ManifestSections<H, X, O> {
    pub build: Vec<PluginManifestBuild>,
    pub agents: Vec<PluginManifestAgent>,
    pub actions: Vec<PluginManifestAction>,
    pub events: Vec<PluginManifestEvent>,
    pub panes: Vec<PluginManifestPane>,
    pub links: Vec<Linked<H>>,
    pub workspaces: Vec<X>,
    pub widgets: Vec<PluginManifestWidget<O>>,
}

/// A loaded manifest. Paths are `P`.
#[derive(Debug)]
pub struct PluginManifest<P, H, X, O> {
    pub identity: ManifestIdentity,
    pub manifest_path: P,
    pub plugin_root: P,
    pub platforms: Option<Vec<PluginPlatform>>,
    pub sections: ManifestSections<H, X, O>,
}

/// A normalized link handler under its id.
#[derive(Debug)]
pub struct Linked<H> {
    pub id: String,
    pub handler: H,
}

/// A section entry that is told from its siblings by its id.
pub trait Identified {
    /// The id.
    spec fn id_text(&self) -> Seq<char>;

    /// The id.
    fn id(&self) -> (id: &str)
        ensures
            id@ == self.id_text(),
    ;
}

impl Identified for PluginManifestAgent {
    open spec fn id_text(&self) -> Seq<char> {
        self.id@
    }

    fn id(&self) -> &str {
        self.id.as_str()
    }
}

impl Identified for PluginManifestAction {
    open spec fn id_text(&self) -> Seq<char> {
        self.id@
    }

    fn id(&self) -> &str {
        self.id.as_str()
    }
}

impl Identified for PluginManifestEvent {
    open spec fn id_text(&self) -> Seq<char> {
        self.id@
    }

    fn id(&self) -> &str {
        self.id.as_str()
    }
}

impl Identified for PluginManifestPane {
    open spec fn id_text(&self) -> Seq<char> {
        self.id@
    }

    fn id(&self) -> &str {
        self.id.as_str()
    }
}

impl<H> Identified for Linked<H> {
    open spec fn id_text(&self) -> Seq<char> {
        self.id@
    }

    fn id(&self) -> &str {
        self.id.as_str()
    }
}

impl<O> Identified for PluginManifestWidget<O> {
    open spec fn id_text(&self) -> Seq<char> {
        self.id@
    }

    fn id(&self) -> &str {
        self.id.as_str()
    }
}

} // verus!
