use vstd::prelude::*;

verus! {

pub open spec fn newline_count(s: Seq<char>) -> nat
    decreases s.len(),
{
    if s.len() == 0 {
        0
    } else {
        newline_count(s.drop_last()) + if s.last() == '\n' { 1nat } else { 0nat }
    }
}

/// Number of lines as `str::lines` counts them: a final line needs no `\n`,
/// and a trailing `\n` starts no new line.
pub open spec fn line_count(s: Seq<char>) -> nat {
    newline_count(s) + if s.len() > 0 && s.last() != '\n' { 1nat } else { 0nat }
}

/// The line count, saturated to what a `u16` holds.
pub open spec fn line_count_u16(s: Seq<char>) -> u16 {
    if line_count(s) > u16::MAX { u16::MAX } else { line_count(s) as u16 }
}

/// Number of lines of `s`, saturated to `u16::MAX`.
pub fn count_lines(s: &str) -> (r: u16)
    ensures
        r == line_count_u16(s@),
{
    let mut n: usize = 0;
    let mut last: Option<char> = None;
    for c in it: s.chars()
        invariant
            it.seq() == s@,
            n as nat == (if newline_count(s@.take(it.index() as int)) > 65536 { 65536 } else { newline_count(s@.take(it.index() as int)) }),
            it.index() == 0 ==> last is None,
            it.index() > 0 ==> last == Some(s@[it.index() - 1]),
    {
        let ghost k = it.index();
        assert(s@.take(k + 1).drop_last() =~= s@.take(k as int));
        if c == '\n' && n < 65536 {
            n += 1;
        }
        last = Some(c);
    }
    assert(s@.take(s@.len() as int) =~= s@);
    let extra: usize = match last {
        Some(c) => if c != '\n' { 1 } else { 0 },
        None => 0,
    };
    if n >= 65535 || n + extra > 65535 {
        65535
    } else {
        (n + extra) as u16
    }
}

/// The encoder's output shown to the user, and how far it is scrolled up
/// from the end.
#[derive(Debug, Clone)]
pub struct OutputPaneState {
    pub output: String,
    /// Lines scrolled up from the bottom; 0 follows the newest output.
    pub current_line: u16,
}

impl OutputPaneState {
    pub fn new(output: String) -> (r: OutputPaneState)
        ensures
            r.output == output,
            r.current_line == 0,
    {
        OutputPaneState { output, current_line: 0 }
    }

    /// Replaces the text and follows the end again.
    pub fn set_output(&mut self, output: &str)
        ensures
            final(self).output@ == output@,
            final(self).current_line == 0,
    {
        self.output = output.to_owned();
        self.current_line = 0;
    }

    /// Appends text and follows the end again.
    pub fn add_output(&mut self, output: &str)
        ensures
            final(self).output@ == old(self).output@ + output@,
            final(self).current_line == 0,
    {
        self.output.append(output);
        self.current_line = 0;
    }

    /// Scrolls one line towards the end.
    pub fn scroll_down(&mut self)
        ensures
            final(self).output == old(self).output,
            final(self).current_line == if line_count_u16(old(self).output@) > 0 && old(self).current_line > 0 {
                (old(self).current_line - 1) as u16
            } else {
                old(self).current_line
            },
    {
        let count = count_lines(self.output.as_str());
        if count > 0 {
            self.current_line = self.current_line.saturating_sub(1);
        }
    }

    /// Scrolls one line towards the start, no further than the first line.
    pub fn scroll_up(&mut self)
        ensures
            final(self).output == old(self).output,
            final(self).current_line == if old(self).current_line < line_count_u16(old(self).output@) {
                (old(self).current_line + 1) as u16
            } else {
                old(self).current_line
            },
    {
        let count = count_lines(self.output.as_str());
        if self.current_line < count {
            self.current_line = self.current_line + 1;
        }
    }
}

} // verus!
