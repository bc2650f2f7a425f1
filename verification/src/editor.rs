//! The raw-mode line editor as a state machine: one step per terminal input
//! event. The state is the edit buffer plus a cursor into the history log
//! (`-1` when not browsing); each step returns the terminal effect the caller
//! must perform. Every transition is pinned down by [`spec_step`].

use vstd::prelude::*;
use crate::aliases::AliasTable;
use crate::complete::autocomplete;
use crate::complete::spec_complete;
use crate::history::HistoryLog;
use crate::text::views;
use crate::text::chars_to_string;
use crate::text::str_to_chars;
use crate::text::trim_chars;
use crate::text::trim_spec;

verus! {

/// A terminal input event, as the editor sees it. Enter arrives as
/// `Char('\n')` and Tab as `Char('\t')`, exactly as a raw-mode terminal
/// delivers them.
pub enum InputEvent {
    Char(char),
    Backspace,
    CtrlC,
    Up,
    Down,
    Other,
}

/// The terminal effect of one editor step, for the caller to perform.
pub enum EditorAction {
    /// Echo the character just typed.
    Echo { c: char },
    /// Erase the last displayed character (backspace, space, backspace).
    EraseOne,
    /// Erase `erase` displayed characters, then print `text` (completion).
    Replace { erase: usize, text: String },
    /// Clear the whole line and reprint the prompt followed by `text`.
    Redraw { text: String },
    /// Move to a fresh line; `line` is the finalized (trimmed) input. If it
    /// is non-empty the caller saves it to history and dispatches it.
    Finalized { line: String },
    /// Announce exit and terminate the process; nothing is saved.
    Interrupt,
    /// No effect.
    Nothing,
}

/// Ghost mirror of [`EditorAction`], over character sequences.
pub enum SpecEditorAction {
    Echo(char),
    EraseOne,
    Replace(nat, Seq<char>),
    Redraw(Seq<char>),
    Finalized(Seq<char>),
    Interrupt,
    Nothing,
}

impl View for EditorAction {
    type V = SpecEditorAction;

    open spec fn view(&self) -> SpecEditorAction {
        match self {
            EditorAction::Echo { c } => SpecEditorAction::Echo(*c),
            EditorAction::EraseOne => SpecEditorAction::EraseOne,
            EditorAction::Replace { erase, text } => SpecEditorAction::Replace(
                *erase as nat,
                text@,
            ),
            EditorAction::Redraw { text } => SpecEditorAction::Redraw(text@),
            EditorAction::Finalized { line } => SpecEditorAction::Finalized(line@),
            EditorAction::Interrupt => SpecEditorAction::Interrupt,
            EditorAction::Nothing => SpecEditorAction::Nothing,
        }
    }
}

/// The editor's state, as the contracts speak of it: the characters composed
/// so far and the history cursor (`-1` when not browsing).
pub struct EdState {
    pub buffer: Seq<char>,
    pub cursor: int,
}

/// The transition relation of the editor, one event at a time:
///   - Enter (`'\n'`): finalize the trimmed buffer and clear it; browsing
///     stops only if the finalized line is non-empty.
///   - Tab (`'\t'`): replace buffer and display with the completion of the
///     buffer, if there is one; otherwise do nothing.
///   - any other character: append it to the buffer and echo it.
///   - Backspace: drop the last buffer character; on an empty buffer do
///     nothing at all.
///   - Ctrl-C: leave every part of the state alone and interrupt.
///   - Up: if an older entry exists, advance the cursor and show that entry.
///   - Down: step the cursor back toward `-1`, showing the newer entry, or an
///     empty line once the cursor leaves history.
///   - anything else: ignored.
pub open spec fn spec_step(
    pre: EdState,
    ev: InputEvent,
    hist: Seq<Seq<char>>,
    aliases: Seq<(Seq<char>, Seq<char>)>,
    entries: Seq<Seq<char>>,
) -> (EdState, SpecEditorAction) {
    match ev {
        InputEvent::Char(c0) => if c0 == '\n' {
            let t = trim_spec(pre.buffer);
            (
                EdState {
                    buffer: Seq::empty(),
                    cursor: if t.len() > 0 {
                        -1
                    } else {
                        pre.cursor
                    },
                },
                SpecEditorAction::Finalized(t),
            )
        } else if c0 == '\t' {
            match spec_complete(pre.buffer, aliases, entries) {
                Option::Some(s) => (
                    EdState { buffer: s, cursor: pre.cursor },
                    SpecEditorAction::Replace(pre.buffer.len(), s),
                ),
                Option::None => (pre, SpecEditorAction::Nothing),
            }
        } else {
            (
                EdState { buffer: pre.buffer.push(c0), cursor: pre.cursor },
                SpecEditorAction::Echo(c0),
            )
        },
        InputEvent::Backspace => if pre.buffer.len() > 0 {
            (EdState { buffer: pre.buffer.drop_last(), cursor: pre.cursor }, SpecEditorAction::EraseOne)
        } else {
            (pre, SpecEditorAction::Nothing)
        },
        InputEvent::CtrlC => (pre, SpecEditorAction::Interrupt),
        InputEvent::Up => if pre.cursor + 1 < hist.len() {
            (
                EdState { buffer: hist[pre.cursor + 1], cursor: pre.cursor + 1 },
                SpecEditorAction::Redraw(hist[pre.cursor + 1]),
            )
        } else {
            (pre, SpecEditorAction::Nothing)
        },
        InputEvent::Down => if pre.cursor > 0 {
            (
                EdState { buffer: hist[pre.cursor - 1], cursor: pre.cursor - 1 },
                SpecEditorAction::Redraw(hist[pre.cursor - 1]),
            )
        } else {
            (EdState { buffer: Seq::empty(), cursor: -1 }, SpecEditorAction::Redraw(Seq::empty()))
        },
        InputEvent::Other => (pre, SpecEditorAction::Nothing),
    }
}

/// The line editor for one or more prompt cycles.
pub struct Editor {
    buffer: Vec<char>,
    cursor: isize,
}

impl Editor {
    /// The state the contracts speak of.
    pub closed spec fn st(self) -> EdState {
        EdState { buffer: self.buffer@, cursor: self.cursor as int }
    }

    /// The cursor stays between `-1` (not browsing) and the newest index
    /// that `hist` has.
    pub open spec fn wf(self, hist: Seq<Seq<char>>) -> bool {
        -1 <= self.st().cursor < hist.len() || self.st().cursor == -1
    }

    /// A fresh editor: empty buffer, not browsing.
    pub fn new() -> (e: Editor)
        ensures
            e.st().buffer == Seq::<char>::empty(),
            e.st().cursor == -1,
            forall|hist: Seq<Seq<char>>| e.wf(hist),
    {
        let e = Editor { buffer: Vec::new(), cursor: -1 };
        proof {
            assert(e.st().buffer =~= Seq::<char>::empty());
        }
        e
    }

    /// The composed characters, as a string.
    pub fn buffer_string(&self) -> (s: String)
        ensures
            s@ == self.st().buffer,
    {
        chars_to_string(&self.buffer)
    }

    /// The history cursor: `-1` when not browsing.
    pub fn cursor(&self) -> (c: isize)
        ensures
            c as int == self.st().cursor,
    {
        self.cursor
    }

    /// Consume one input event: update the state as [`spec_step`] says and
    /// return the terminal effect for the caller to perform.
    pub fn step(
        &mut self,
        ev: InputEvent,
        hist: &HistoryLog,
        aliases: &AliasTable,
        dir_entries: &Vec<String>,
    ) -> (a: EditorAction)
        requires
            old(self).wf(hist@),
            hist.wf(),
        ensures
            final(self).wf(hist@),
            (final(self).st(), a@) == spec_step(
                old(self).st(),
                ev,
                hist@,
                aliases@,
                views(dir_entries@),
            ),
    {
        match ev {
            InputEvent::Char(c0) => {
                if c0 == '\n' {
                    let t = trim_chars(&self.buffer);
                    let line = chars_to_string(&t);
                    self.buffer = Vec::new();
                    if t.len() > 0 {
                        self.cursor = -1;
                    }
                    proof {
                        assert(self.st().buffer =~= Seq::<char>::empty());
                    }
                    EditorAction::Finalized { line }
                } else if c0 == '\t' {
                    let partial = chars_to_string(&self.buffer);
                    match autocomplete(partial.as_str(), aliases, dir_entries) {
                        Option::Some(s) => {
                            let erase = self.buffer.len();
                            self.buffer = str_to_chars(s.as_str());
                            EditorAction::Replace { erase, text: s }
                        },
                        Option::None => EditorAction::Nothing,
                    }
                } else {
                    self.buffer.push(c0);
                    EditorAction::Echo { c: c0 }
                }
            },
            InputEvent::Backspace => {
                if self.buffer.len() > 0 {
                    self.buffer.pop();
                    EditorAction::EraseOne
                } else {
                    EditorAction::Nothing
                }
            },
            InputEvent::CtrlC => EditorAction::Interrupt,
            InputEvent::Up => {
                let n = hist.len();
                if self.cursor + 1 < (n as isize) {
                    self.cursor = self.cursor + 1;
                    let e = hist.entry(self.cursor as usize);
                    let text = e.clone();
                    self.buffer = str_to_chars(text.as_str());
                    EditorAction::Redraw { text }
                } else {
                    EditorAction::Nothing
                }
            },
            InputEvent::Down => {
                if self.cursor > 0 {
                    self.cursor = self.cursor - 1;
                    let e = hist.entry(self.cursor as usize);
                    let text = e.clone();
                    self.buffer = str_to_chars(text.as_str());
                    EditorAction::Redraw { text }
                } else {
                    self.cursor = -1;
                    self.buffer = Vec::new();
                    let text = String::new();
                    proof {
                        assert(self.st().buffer =~= Seq::<char>::empty());
                    }
                    EditorAction::Redraw { text }
                }
            },
            InputEvent::Other => EditorAction::Nothing,
        }
    }
}

} // verus!
