//! The interactive shell: editing a line of input, and reading a line as a
//! command.
//!
//! Reading the keyboard and printing are the caller's part, and so is
//! carrying a command out.

use vstd::prelude::*;
use vstd::slice::slice_to_vec;
use vstd::string::StringSliceAdditionalSpecFns;
use crate::text::{bytes_eq, decode_or, split_words, text_or, trim, trimmed, words};

verus! {

/// Lines that the history keeps.
pub const HISTORY_LIMIT: usize = 10;

/// The line feed key.
pub const KEY_LINE_FEED: u8 = 10;

/// The return key.
pub const KEY_RETURN: u8 = 13;

/// The backspace key.
pub const KEY_BACKSPACE: u8 = 8;

/// The delete key.
pub const KEY_DELETE: u8 = 127;

/// What a line asks for.
#[derive(Debug, Clone, PartialEq, Eq)]
pub enum Command {
    /// List the commands.
    Help,
    /// Show the system summary.
    Fetch,
    /// Show the version.
    Version,
    /// List the files on disk.
    Ls,
    /// List the tasks.
    Ps,
    /// Print the file named; without a name, say how `cat` is used.
    Cat(Option<String>),
    /// Run the program named; without a name, say how `exec` is used.
    Exec(Option<String>),
    /// Clear the screen.
    Clear,
    /// Anything else: say that the command, whose name this is, is unknown.
    Unknown(String),
}

/// What a command holds, as mathematical values.
pub enum CommandView {
    Help,
    Fetch,
    Version,
    Ls,
    Ps,
    Cat(Option<Seq<char>>),
    Exec(Option<Seq<char>>),
    Clear,
    Unknown(Seq<char>),
}

impl View for Command {
    type V = CommandView;

    open spec fn view(&self) -> CommandView {
        match self {
            Command::Help => CommandView::Help,
            Command::Fetch => CommandView::Fetch,
            Command::Version => CommandView::Version,
            Command::Ls => CommandView::Ls,
            Command::Ps => CommandView::Ps,
            Command::Cat(None) => CommandView::Cat(None),
            Command::Cat(Some(name)) => CommandView::Cat(Some(name@)),
            Command::Exec(None) => CommandView::Exec(None),
            Command::Exec(Some(name)) => CommandView::Exec(Some(name@)),
            Command::Clear => CommandView::Clear,
            Command::Unknown(name) => CommandView::Unknown(name@),
        }
    }
}

/// A word as text.
pub open spec fn word_text(word: Seq<u8>) -> Seq<char> {
    text_or(word, Seq::empty())
}

/// The second word as text, if there is one.
pub open spec fn argument(ws: Seq<Seq<u8>>) -> Option<Seq<char>> {
    if ws.len() < 2 {
        None
    } else {
        Some(word_text(ws[1]))
    }
}

/// The command that the words of a line ask for: the first word names it,
/// the second is its argument, and the rest is ignored. No words, no
/// command.
pub open spec fn command_of(ws: Seq<Seq<u8>>) -> Option<CommandView> {
    if ws.len() == 0 {
        None
    } else if ws[0] == "help".spec_bytes() {
        Some(CommandView::Help)
    } else if ws[0] == "fetch".spec_bytes() {
        Some(CommandView::Fetch)
    } else if ws[0] == "version".spec_bytes() {
        Some(CommandView::Version)
    } else if ws[0] == "ls".spec_bytes() {
        Some(CommandView::Ls)
    } else if ws[0] == "ps".spec_bytes() {
        Some(CommandView::Ps)
    } else if ws[0] == "cat".spec_bytes() {
        Some(CommandView::Cat(argument(ws)))
    } else if ws[0] == "exec".spec_bytes() {
        Some(CommandView::Exec(argument(ws)))
    } else if ws[0] == "clear".spec_bytes() {
        Some(CommandView::Clear)
    } else {
        Some(CommandView::Unknown(word_text(ws[0])))
    }
}

fn text_of(word: &[u8]) -> (s: String)
    ensures
        s@ == word_text(word@),
{
    proof {
        reveal_strlit("");
        assert(""@ =~= Seq::<char>::empty());
    }
    decode_or(word, "").to_owned()
}

fn argument_of(ws: &Vec<&[u8]>) -> (arg: Option<String>)
    ensures
        match argument(ws@.map_values(|w: &[u8]| w@)) {
            Some(text) => arg matches Some(s) && s@ == text,
            None => arg is None,
        },
{
    if ws.len() < 2 {
        None
    } else {
        Some(text_of(ws[1]))
    }
}

/// Reads a line as a command. Words are set apart by ASCII white space.
pub fn execute_command(cmd_line: &str) -> (r: Option<Command>)
    ensures
        match command_of(words(cmd_line.spec_bytes())) {
            Some(c) => r matches Some(command) && command@ == c,
            None => r is None,
        },
{
    let parts = split_words(cmd_line.as_bytes());
    if parts.len() == 0 {
        return None;
    }
    let name = parts[0];
    assert(name@ == words(cmd_line.spec_bytes())[0]);
    if bytes_eq(name, "help".as_bytes()) {
        Some(Command::Help)
    } else if bytes_eq(name, "fetch".as_bytes()) {
        Some(Command::Fetch)
    } else if bytes_eq(name, "version".as_bytes()) {
        Some(Command::Version)
    } else if bytes_eq(name, "ls".as_bytes()) {
        Some(Command::Ls)
    } else if bytes_eq(name, "ps".as_bytes()) {
        Some(Command::Ps)
    } else if bytes_eq(name, "cat".as_bytes()) {
        Some(Command::Cat(argument_of(&parts)))
    } else if bytes_eq(name, "exec".as_bytes()) {
        Some(Command::Exec(argument_of(&parts)))
    } else if bytes_eq(name, "clear".as_bytes()) {
        Some(Command::Clear)
    } else {
        Some(Command::Unknown(text_of(name)))
    }
}

/// The line being typed and the lines entered before.
pub struct Shell {
    buffer: Vec<u8>,
    history: Vec<Vec<u8>>,
}

/// What a shell holds, as mathematical values.
pub struct ShellView {
    /// The line being typed.
    pub buffer: Seq<u8>,
    /// The lines entered before, the oldest first.
    pub history: Seq<Seq<u8>>,
}

/// What to do about a key.
#[derive(Debug, Clone, PartialEq, Eq)]
pub enum KeyAction {
    /// The line is complete: start a new line on screen, carry the line
    /// out if it is not blank, and show the prompt.
    Submit(Option<Vec<u8>>),
    /// A character was rubbed out: step back, blank it, step back.
    Erase,
    /// Nothing to rub out.
    Nothing,
    /// The key was taken into the line: show it.
    Echo(u8),
}

/// The history after `line` has been entered: the oldest line goes when
/// the history is full.
pub open spec fn remembered(history: Seq<Seq<u8>>, line: Seq<u8>) -> Seq<Seq<u8>> {
    if history.len() >= HISTORY_LIMIT {
        history.drop_first().push(line)
    } else {
        history.push(line)
    }
}

/// Whether a key ends the line.
pub open spec fn ends_line(c: u8) -> bool {
    c == KEY_LINE_FEED || c == KEY_RETURN
}

/// Whether a key rubs out a character.
pub open spec fn rubs_out(c: u8) -> bool {
    c == KEY_BACKSPACE || c == KEY_DELETE
}

/// The shell after a key.
pub open spec fn after_key(v: ShellView, c: u8) -> ShellView {
    if ends_line(c) {
        ShellView {
            buffer: Seq::empty(),
            history: if trimmed(v.buffer).len() > 0 {
                remembered(v.history, trimmed(v.buffer))
            } else {
                v.history
            },
        }
    } else if rubs_out(c) {
        ShellView {
            buffer: if v.buffer.len() > 0 {
                v.buffer.drop_last()
            } else {
                v.buffer
            },
            ..v
        }
    } else {
        ShellView { buffer: v.buffer.push(c), ..v }
    }
}

impl View for Shell {
    type V = ShellView;

    closed spec fn view(&self) -> ShellView {
        ShellView { buffer: self.buffer@, history: self.history@.map_values(|l: Vec<u8>| l@) }
    }
}

impl Shell {
    /// A shell with an empty line and no history.
    pub fn new() -> (shell: Shell)
        ensures
            shell@.buffer == Seq::<u8>::empty(),
            shell@.history == Seq::<Seq<u8>>::empty(),
    {
        let shell = Shell { buffer: Vec::new(), history: Vec::new() };
        assert(shell@.history =~= Seq::<Seq<u8>>::empty());
        shell
    }

    /// The lines entered before, the oldest first.
    pub fn history(&self) -> (lines: &Vec<Vec<u8>>)
        ensures
            lines@.map_values(|l: Vec<u8>| l@) == self@.history,
    {
        &self.history
    }

    /// The line being typed.
    pub fn line(&self) -> (line: &Vec<u8>)
        ensures
            line@ == self@.buffer,
    {
        &self.buffer
    }

    /// Takes in a key.
    ///
    /// Line feed and carriage return end the line: trimmed of white space
    /// it is handed out and, unless blank, remembered. Backspace and delete
    /// rub out the last character. Any other key is added to the line.
    pub fn feed(&mut self, c: u8) -> (action: KeyAction)
        ensures
            final(self)@ == after_key(old(self)@, c),
            ends_line(c) ==> (if trimmed(old(self)@.buffer).len() > 0 {
                action matches KeyAction::Submit(Some(line)) && line@ == trimmed(old(self)@.buffer)
            } else {
                action == KeyAction::Submit(None)
            }),
            !ends_line(c) && rubs_out(c) ==> action == if old(self)@.buffer.len() > 0 {
                KeyAction::Erase
            } else {
                KeyAction::Nothing
            },
            !ends_line(c) && !rubs_out(c) ==> action == KeyAction::Echo(c),
    {
        if c == KEY_LINE_FEED || c == KEY_RETURN {
            let line = trim(self.buffer.as_slice());
            let action = if line.len() > 0 {
                let ghost before = self.history@.map_values(|l: Vec<u8>| l@);
                let kept = slice_to_vec(line);
                let given = slice_to_vec(line);
                if self.history.len() >= HISTORY_LIMIT {
                    self.history.remove(0);
                }
                self.history.push(kept);
                assert(self.history@.map_values(|l: Vec<u8>| l@) =~= remembered(before, line@));
                KeyAction::Submit(Some(given))
            } else {
                KeyAction::Submit(None)
            };
            self.buffer.clear();
            action
        } else if c == KEY_BACKSPACE || c == KEY_DELETE {
            if self.buffer.len() > 0 {
                self.buffer.pop();
                KeyAction::Erase
            } else {
                KeyAction::Nothing
            }
        } else {
            self.buffer.push(c);
            KeyAction::Echo(c)
        }
    }
}

} // verus!
