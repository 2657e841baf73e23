use vstd::prelude::*;

pub mod mention;
pub mod popup;
pub mod slash_command;

use mention::{MentionOverlay, MentionProvider};
use slash_command::{default_commands, is_default_command_list, SlashCommand, SlashCommandOverlay};

verus! {

impl SlashCommandOverlay {
    /// An open slash-command popup always takes the input.
    pub fn is_active(&self) -> (r: bool)
        ensures
            r,
    {
        true
    }
}

impl MentionOverlay {
    /// An open mention popup always takes the input.
    pub fn is_active(&self) -> (r: bool)
        ensures
            r,
    {
        true
    }
}

/// A popup that can be shown on top of the editor.
pub enum ActiveOverlay {
    SlashCommand(SlashCommandOverlay),
    Mention(MentionOverlay),
}

impl ActiveOverlay {
    /// Whether this overlay takes the input events.
    pub fn is_active(&self) -> (r: bool)
        ensures
            r,
    {
        match self {
            ActiveOverlay::SlashCommand(o) => o.is_active(),
            ActiveOverlay::Mention(o) => o.is_active(),
        }
    }
}

/// Manages the optional active overlay and the registered slash commands /
/// mention provider.
pub struct OverlayManager {
    active: Option<ActiveOverlay>,
    slash_commands: Vec<SlashCommand>,
    mention_provider: Option<Box<dyn MentionProvider>>,
}

impl OverlayManager {
    /// The open popup, if any.
    pub closed spec fn spec_active(&self) -> Option<ActiveOverlay> {
        self.active
    }

    /// Whether a popup is open.
    pub open spec fn spec_has_open(&self) -> bool {
        self.spec_active() is Some
    }

    /// The slash commands offered, built-in ones first.
    pub closed spec fn spec_slash_commands(&self) -> Seq<SlashCommand> {
        self.slash_commands@
    }

    /// Whether the host has supplied a mention provider.
    pub closed spec fn spec_has_provider(&self) -> bool {
        self.mention_provider is Some
    }

    pub fn new() -> (m: Self)
        ensures
            !m.spec_has_open(),
            !m.spec_has_provider(),
            is_default_command_list(m.spec_slash_commands()),
    {
        let cmds = default_commands();
        OverlayManager { active: None, slash_commands: cmds, mention_provider: None }
    }

    /// Return `true` if an overlay is currently active.
    pub fn has_active(&self) -> (r: bool)
        ensures
            r == self.spec_has_open(),
    {
        match &self.active {
            Some(o) => o.is_active(),
            None => false,
        }
    }

    /// The open popup, if any.
    pub fn active(&self) -> (r: Option<&ActiveOverlay>)
        ensures
            match r {
                Some(o) => self.spec_active() == Some(*o),
                None => self.spec_active() is None,
            },
    {
        match &self.active {
            Some(o) => Some(o),
            None => None,
        }
    }

    /// Close the active overlay (if any).
    pub fn close(&mut self)
        ensures
            !final(self).spec_has_open(),
            final(self).spec_slash_commands() == old(self).spec_slash_commands(),
            final(self).spec_has_provider() == old(self).spec_has_provider(),
    {
        self.active = None;
    }

    /// Register an additional slash command, after those already offered.
    pub fn register_slash_command(&mut self, command: SlashCommand)
        ensures
            final(self).spec_slash_commands() == old(self).spec_slash_commands().push(command),
            final(self).spec_has_open() == old(self).spec_has_open(),
            final(self).spec_has_provider() == old(self).spec_has_provider(),
    {
        self.slash_commands.push(command);
    }

    /// Set the mention provider.
    pub fn set_mention_provider(&mut self, provider: Box<dyn MentionProvider>)
        ensures
            final(self).spec_has_provider(),
            final(self).spec_slash_commands() == old(self).spec_slash_commands(),
            final(self).spec_has_open() == old(self).spec_has_open(),
    {
        self.mention_provider = Some(provider);
    }
}

impl Default for OverlayManager {
    fn default() -> (m: Self)
        ensures
            !m.spec_has_open(),
            !m.spec_has_provider(),
            is_default_command_list(m.spec_slash_commands()),
    {
        OverlayManager::new()
    }
}

} // verus!
