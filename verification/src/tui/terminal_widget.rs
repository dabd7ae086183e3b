//! The scroll-back of the terminal: a history of lines and the line that is
//! being written.

use vstd::prelude::*;
use vstd::string::StringExecFns;
use crate::text::{lines, split_lines};

verus! {

/// The line that is being written.
#[derive(Debug, Clone, PartialEq, Eq, Hash)]
pub enum TerminalWidgetCurrentLine {
    /// What the user types.
    Input(String),
    /// What a running command prints.
    Output(String),
}

impl Default for TerminalWidgetCurrentLine {
    fn default() -> (r: Self)
        ensures
            r is Input,
            r->Input_0@ == Seq::<char>::empty(),
    {
        TerminalWidgetCurrentLine::Input(String::new())
    }
}

impl TerminalWidgetCurrentLine {
    /// The text of the line.
    pub open spec fn text(self) -> Seq<char> {
        match self {
            TerminalWidgetCurrentLine::Input(text) => text@,
            TerminalWidgetCurrentLine::Output(text) => text@,
        }
    }
}

/// The terminal: its history, the current line, the prefix of the prompt, and
/// the place and size of the window.
#[derive(Default, Debug, Clone, PartialEq, Eq, Hash)]
pub struct TerminalWidget {
    pub history: Vec<String>,
    pub ongoing: TerminalWidgetCurrentLine,
    pub prefix: Option<String>,
    pub offset: Option<usize>,
    pub width: u16,
    pub height: u16,
}

/// The texts of some lines.
pub open spec fn texts(lines: Seq<String>) -> Seq<Seq<char>> {
    lines.map_values(|line: String| line@)
}

/// The number of lines to pass over so that `lines` lines of history and
/// `input_height` lines of input end at the bottom of a window of `height`
/// lines; never more than `usize` can hold.
pub open spec fn stuck(lines: nat, input_height: nat, height: nat) -> nat {
    if lines + input_height > height {
        if lines + input_height - height > usize::MAX {
            usize::MAX as nat
        } else {
            (lines + input_height - height) as nat
        }
    } else {
        0
    }
}

impl TerminalWidget {
    /// `text` behind the prompt.
    pub open spec fn prompted(self, text: Seq<char>) -> Seq<char> {
        match self.prefix {
            Some(prefix) => prefix@ + " > "@ + text,
            None => "> "@ + text,
        }
    }

    /// The current line as it is shown: input behind the prompt, output as it
    /// is.
    pub open spec fn current_line(self) -> Seq<char> {
        match self.ongoing {
            TerminalWidgetCurrentLine::Input(text) => self.prompted(text@),
            TerminalWidgetCurrentLine::Output(text) => text@,
        }
    }

    /// The number of lines that the current line takes: at least one.
    pub open spec fn input_height(self) -> nat {
        let n = split_lines(self.ongoing.text()).len();
        if n < 1 {
            1
        } else {
            n
        }
    }

    /// The lines that are shown from `offset` on: the history from there, then
    /// the current line.
    pub open spec fn shown(self, offset: nat) -> Seq<Seq<char>> {
        let history = texts(self.history@);
        if offset <= history.len() {
            history.skip(offset as int).push(self.current_line())
        } else {
            seq![self.current_line()]
        }
    }

    /// Puts the prompt before `text`.
    pub fn prefix(&self, text: &str) -> (r: String)
        ensures
            r@ == self.prompted(text@),
    {
        let mut out = String::new();
        match &self.prefix {
            Some(prefix) => {
                out.append(prefix.as_str());
                out.append(" > ");
            },
            None => {
                out.append("> ");
            },
        }
        out.append(text);
        assert(out@ =~= self.prompted(text@));
        out
    }

    /// Appends the lines of `text` to the history.
    pub fn push(&mut self, text: &str)
        ensures
            texts(final(self).history@) == texts(old(self).history@) + split_lines(text@),
            final(self).ongoing == old(self).ongoing,
            final(self).prefix == old(self).prefix,
            final(self).offset == old(self).offset,
            final(self).width == old(self).width,
            final(self).height == old(self).height,
    {
        let mut new_lines = lines(text);
        let ghost added = texts(new_lines@);
        self.history.append(&mut new_lines);
        assert(texts(self.history@) =~= texts(old(self).history@) + added);
    }

    /// Opens the current line for input and returns the line it replaces.
    pub fn allow_user_input(&mut self) -> (r: TerminalWidgetCurrentLine)
        ensures
            r == old(self).ongoing,
            final(self).ongoing is Input,
            final(self).ongoing.text() == Seq::<char>::empty(),
            final(self).history == old(self).history,
            final(self).prefix == old(self).prefix,
            final(self).offset == old(self).offset,
            final(self).width == old(self).width,
            final(self).height == old(self).height,
    {
        let mut prev = TerminalWidgetCurrentLine::Input(String::new());
        core::mem::swap(&mut self.ongoing, &mut prev);
        prev
    }

    /// Opens the current line for output and returns the line it replaces.
    pub fn forbid_user_input(&mut self) -> (r: TerminalWidgetCurrentLine)
        ensures
            r == old(self).ongoing,
            final(self).ongoing is Output,
            final(self).ongoing.text() == Seq::<char>::empty(),
            final(self).history == old(self).history,
            final(self).prefix == old(self).prefix,
            final(self).offset == old(self).offset,
            final(self).width == old(self).width,
            final(self).height == old(self).height,
    {
        let mut prev = TerminalWidgetCurrentLine::Output(String::new());
        core::mem::swap(&mut self.ongoing, &mut prev);
        prev
    }

    /// The number of lines of the history.
    pub fn len(&self) -> (r: usize)
        ensures
            r == self.history@.len(),
    {
        self.history.len()
    }

    /// The number of lines to pass over so that the current line stands at
    /// the bottom of a window of `height` lines.
    pub fn stick_offset(&self, height: usize) -> (r: usize)
        ensures
            r == stuck(self.history@.len(), self.input_height(), height as nat),
    {
        let current = match &self.ongoing {
            TerminalWidgetCurrentLine::Input(text) => lines(text.as_str()),
            TerminalWidgetCurrentLine::Output(text) => lines(text.as_str()),
        };
        assert(texts(current@).len() == current@.len());
        let mut input_height: usize = current.len();
        if input_height < 1 {
            input_height = 1;
        }
        let count: usize = self.len();
        if count >= height {
            let over: usize = count - height;
            if input_height > usize::MAX - over {
                usize::MAX
            } else {
                over + input_height
            }
        } else {
            let room: usize = height - count;
            if input_height > room {
                input_height - room
            } else {
                0
            }
        }
    }

    /// The lines that are shown from `offset` on.
    pub fn lines(&self, offset: usize) -> (r: Vec<String>)
        ensures
            texts(r@) == self.shown(offset as nat),
    {
        let mut out: Vec<String> = Vec::new();
        let n: usize = self.history.len();
        let start: usize = if offset < n {
            offset
        } else {
            n
        };
        let mut i: usize = start;
        assert(texts(out@) =~= texts(self.history@).subrange(start as int, i as int));
        while i < n
            invariant
                n == self.history@.len(),
                start <= i <= n,
                texts(out@) == texts(self.history@).subrange(start as int, i as int),
            decreases n - i,
        {
            let ghost before = texts(out@);
            out.push(self.history[i].clone());
            i += 1;
            assert(texts(out@) =~= before.push(self.history@[i - 1]@));
            assert(texts(out@) =~= texts(self.history@).subrange(start as int, i as int));
        }
        let ghost body = texts(out@);
        let line = match &self.ongoing {
            TerminalWidgetCurrentLine::Input(text) => self.prefix(text.as_str()),
            TerminalWidgetCurrentLine::Output(text) => text.clone(),
        };
        out.push(line);
        proof {
            assert(texts(out@) =~= body.push(self.current_line()));
            if offset <= n {
                assert(body =~= texts(self.history@).skip(offset as int));
            } else {
                assert(body =~= Seq::<Seq<char>>::empty());
            }
        }
        out
    }
}

} // verus!
