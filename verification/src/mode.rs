//! The modes of the interface and the keys that drive it.

use vstd::prelude::*;

verus! {

/// What an input line is collecting, with the text typed so far.
#[derive(Clone, Debug, PartialEq)]
pub enum CommandContext {
    Add { buffer: String },
    Folder { buffer: String },
    Delete { buffer: String },
}

/// The mode the interface is in. Exactly one is active at a time, and each
/// owns the data it needs.
#[derive(Clone, Debug, PartialEq)]
pub enum Mode {
    /// A command is being typed into the command buffer.
    Command,
    /// An input line of its own collects the argument of a command.
    CommandInput(CommandContext),
    /// A row of the current folder is selected; `selected` counts rows of
    /// the folder, not positions of the store.
    Navigate { selected: usize },
}

/// The three commands that take an argument on an input line of their own.
#[derive(Clone, Copy, Debug, PartialEq, Eq)]
pub enum InputKind {
    Add,
    Folder,
    Delete,
}

/// A mode with its buffer as a sequence of characters.
pub ghost enum ModeView {
    Command,
    Input { kind: InputKind, buffer: Seq<char> },
    Navigate { selected: nat },
}

impl CommandContext {
    /// The command that the input line belongs to.
    pub open spec fn kind_of(self) -> InputKind {
        match self {
            CommandContext::Add { .. } => InputKind::Add,
            CommandContext::Folder { .. } => InputKind::Folder,
            CommandContext::Delete { .. } => InputKind::Delete,
        }
    }

    /// The text typed so far.
    pub open spec fn typed(self) -> Seq<char> {
        match self {
            CommandContext::Add { buffer } => buffer@,
            CommandContext::Folder { buffer } => buffer@,
            CommandContext::Delete { buffer } => buffer@,
        }
    }

    /// An input line of the command `kind` that holds `buffer`.
    pub fn new(kind: InputKind, buffer: String) -> (out: CommandContext)
        ensures
            out.kind_of() == kind,
            out.typed() == buffer@,
    {
        match kind {
            InputKind::Add => CommandContext::Add { buffer },
            InputKind::Folder => CommandContext::Folder { buffer },
            InputKind::Delete => CommandContext::Delete { buffer },
        }
    }

    /// The command that the input line belongs to.
    pub fn kind(&self) -> (out: InputKind)
        ensures
            out == self.kind_of(),
    {
        match self {
            CommandContext::Add { .. } => InputKind::Add,
            CommandContext::Folder { .. } => InputKind::Folder,
            CommandContext::Delete { .. } => InputKind::Delete,
        }
    }

    /// The text typed so far.
    pub fn buffer(&self) -> (out: &String)
        ensures
            out@ == self.typed(),
    {
        match self {
            CommandContext::Add { buffer } => buffer,
            CommandContext::Folder { buffer } => buffer,
            CommandContext::Delete { buffer } => buffer,
        }
    }
}

impl View for Mode {
    type V = ModeView;

    open spec fn view(&self) -> ModeView {
        match *self {
            Mode::Command => ModeView::Command,
            Mode::CommandInput(context) => ModeView::Input {
                kind: context.kind_of(),
                buffer: context.typed(),
            },
            Mode::Navigate { selected } => ModeView::Navigate { selected: selected as nat },
        }
    }
}

/// The keys that the interface tells apart.
#[derive(Clone, Copy, Debug, PartialEq, Eq)]
pub enum KeyCode {
    Esc,
    Backspace,
    Enter,
    Up,
    Down,
    Char(char),
    /// Any other key.
    Other,
}

/// A key press: the key and the modifiers held with it.
#[derive(Clone, Copy, Debug, PartialEq, Eq)]
pub struct KeyEvent {
    pub code: KeyCode,
    pub shift: bool,
    pub control: bool,
    /// Whether any modifier other than shift and control was held.
    pub other_modifier: bool,
}

impl KeyEvent {
    /// Whether no modifier at all was held.
    pub open spec fn is_plain(self) -> bool {
        !self.shift && !self.control && !self.other_modifier
    }

    /// Whether no modifier at all was held.
    pub fn plain(&self) -> (out: bool)
        ensures
            out == self.is_plain(),
    {
        !self.shift && !self.control && !self.other_modifier
    }
}

} // verus!
