//! Colours, and the badges that announce an agent's state.
use vstd::prelude::*;

verus! {

/// A foreground colour.
#[derive(Debug, Clone, Copy, PartialEq, Eq, Structural)]
pub enum Color {
    /// The terminal's own default.
    Reset,
    /// An entry of the terminal's 256-colour palette.
    Indexed(u8),
    /// A direct colour: red, green, blue.
    Rgb(u8, u8, u8),
}

/// The style of one painted cell.
#[derive(Debug, Clone, Copy, PartialEq, Eq, Structural)]
pub struct CellStyle {
    pub fg: Color,
    pub bold: bool,
}

/// The lifecycle state an agent has declared for its pane.
#[derive(Debug, Clone, Copy, PartialEq, Eq, Structural)]
pub enum AgentMetaState {
    Working,
    Blocked,
    Done,
    Idle,
}

/// A one-cell mark drawn ahead of a pane's name.
#[derive(Debug, Clone, Copy, PartialEq, Eq)]
pub struct AgentBadge {
    /// The mark: one symbol of one display cell.
    pub glyph: &'static str,
    pub color: Color,
    /// Drawn bold.
    pub emphatic: bool,
}

/// The badges of one agent state.
#[derive(Debug, Clone, Copy, PartialEq, Eq)]
pub struct StateBadges {
    /// The user has looked at the pane since its last state change.
    pub seen: AgentBadge,
    /// The user has not.
    pub unseen: AgentBadge,
    /// The pane is waiting on a human, looked at or not.
    pub asking: AgentBadge,
}

/// The colours and badges of the chrome.
#[derive(Debug, Clone, Copy, PartialEq, Eq)]
pub struct Theme {
    /// A rule off the focused frame.
    pub divider: Color,
    /// A rule on the focused frame.
    pub divider_focus: Color,
    /// An unfocused pane's title.
    pub pane_title: Color,
    /// The focused pane's title.
    pub pane_title_focus: Color,
    /// A pane that waits on a human.
    pub attention: Color,
    pub working: StateBadges,
    pub blocked: StateBadges,
    pub done: StateBadges,
    pub idle: StateBadges,
}

/// The badges `theme` has for `state`.
pub open spec fn badges_of(theme: Theme, state: AgentMetaState) -> StateBadges {
    match state {
        AgentMetaState::Working => theme.working,
        AgentMetaState::Blocked => theme.blocked,
        AgentMetaState::Done => theme.done,
        AgentMetaState::Idle => theme.idle,
    }
}

/// The badge of an agent pane.
pub open spec fn agent_badge_of(
    theme: Theme,
    state: AgentMetaState,
    attention: bool,
    seen: bool,
) -> AgentBadge {
    let badges = badges_of(theme, state);
    if attention {
        badges.asking
    } else if seen {
        badges.seen
    } else {
        badges.unseen
    }
}

/// The badge of an agent pane: by its state, whether it waits on a human, and
/// whether the user has looked at it since.
pub fn agent_badge(theme: &Theme, state: AgentMetaState, attention: bool, seen: bool) -> (b:
    AgentBadge)
    ensures
        b == agent_badge_of(*theme, state, attention, seen),
{
    let badges = match state {
        AgentMetaState::Working => theme.working,
        AgentMetaState::Blocked => theme.blocked,
        AgentMetaState::Done => theme.done,
        AgentMetaState::Idle => theme.idle,
    };
    if attention {
        badges.asking
    } else if seen {
        badges.seen
    } else {
        badges.unseen
    }
}

/// The badge of a pane without an agent that waits on a human.
pub open spec fn attention_badge_of(theme: Theme) -> AgentBadge {
    AgentBadge { glyph: "\u{25cf}", color: theme.attention, emphatic: true }
}

/// The badge of a pane without an agent that waits on a human.
pub fn attention_badge(theme: &Theme) -> (b: AgentBadge)
    ensures
        b == attention_badge_of(*theme),
{
    AgentBadge { glyph: "\u{25cf}", color: theme.attention, emphatic: true }
}

/// A badge in an indexed colour.
pub open spec fn badge(glyph: &'static str, index: u8, emphatic: bool) -> AgentBadge {
    AgentBadge { glyph, color: Color::Indexed(index), emphatic }
}

impl Default for Theme {
    /// The built-in theme.
    fn default() -> (t: Theme)
        ensures
            t.divider == Color::Indexed(240),
            t.divider_focus == Color::Indexed(75),
            t.pane_title == Color::Indexed(245),
            t.pane_title_focus == Color::Indexed(153),
            t.attention == Color::Indexed(214),
            t.working == (StateBadges {
                seen: badge("\u{25d0}", 75, false),
                unseen: badge("\u{25d0}", 75, false),
                asking: badge("\u{25cf}", 214, true),
            }),
            t.blocked == (StateBadges {
                seen: badge("\u{25a0}", 203, true),
                unseen: badge("\u{25a0}", 203, true),
                asking: badge("\u{25cf}", 214, true),
            }),
            t.done == (StateBadges {
                seen: badge("\u{2713}", 108, false),
                unseen: badge("\u{2713}", 108, true),
                asking: badge("\u{25cf}", 214, true),
            }),
            t.idle == (StateBadges {
                seen: badge("\u{25cb}", 240, false),
                unseen: badge("\u{25cb}", 240, false),
                asking: badge("\u{25cf}", 214, true),
            }),
    {
        let asking = AgentBadge { glyph: "\u{25cf}", color: Color::Indexed(214), emphatic: true };
        let working = AgentBadge { glyph: "\u{25d0}", color: Color::Indexed(75), emphatic: false };
        let blocked = AgentBadge { glyph: "\u{25a0}", color: Color::Indexed(203), emphatic: true };
        let done = AgentBadge { glyph: "\u{2713}", color: Color::Indexed(108), emphatic: false };
        let unread = AgentBadge { glyph: "\u{2713}", color: Color::Indexed(108), emphatic: true };
        let idle = AgentBadge { glyph: "\u{25cb}", color: Color::Indexed(240), emphatic: false };
        Theme {
            divider: Color::Indexed(240),
            divider_focus: Color::Indexed(75),
            pane_title: Color::Indexed(245),
            pane_title_focus: Color::Indexed(153),
            attention: Color::Indexed(214),
            working: StateBadges { seen: working, unseen: working, asking },
            blocked: StateBadges { seen: blocked, unseen: blocked, asking },
            done: StateBadges { seen: done, unseen: unread, asking },
            idle: StateBadges { seen: idle, unseen: idle, asking },
        }
    }
}

} // verus!
