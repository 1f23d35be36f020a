use vstd::prelude::*;
use crate::builder::{finalize, initial_view, output_args, push_str, texts, append_texts, BuilderView, CommandBuilder};
use crate::params::{apply_visitor, is_synthesis_order, run};
use crate::params::parameter::Parameter;
use crate::text::{cat, chars_of, owned, string_of};

verus! {

/// Line ends as a terminal shows them: `\r\n` and a lone `\r` become `\n`.
pub open spec fn normalized(s: Seq<char>) -> Seq<char>
    decreases s.len(),
{
    if s.len() == 0 {
        s
    } else if s[0] == '\r' && s.len() > 1 && s[1] == '\n' {
        seq!['\n'] + normalized(s.skip(2))
    } else if s[0] == '\r' {
        seq!['\n'] + normalized(s.skip(1))
    } else {
        seq![s[0]] + normalized(s.skip(1))
    }
}

/// Text from the encoder's error stream with its line ends normalized.
pub fn normalize_newlines(chunk: &str) -> (r: String)
    ensures
        r@ == normalized(chunk@),
{
    let cs = chars_of(chunk);
    let mut out: Vec<char> = Vec::new();
    let mut i: usize = 0;
    assert(cs@.skip(0) =~= cs@);
    while i < cs.len()
        invariant
            i <= cs.len(),
            cs@ == chunk@,
            out@ + normalized(cs@.skip(i as int)) == normalized(chunk@),
        decreases cs.len() - i,
    {
        let ghost rest = cs@.skip(i as int);
        if cs[i] == '\r' && i + 1 < cs.len() && cs[i + 1] == '\n' {
            assert(rest.skip(2) =~= cs@.skip(i + 2));
            out.push('\n');
            i += 2;
        } else {
            assert(rest.skip(1) =~= cs@.skip(i + 1));
            if cs[i] == '\r' {
                out.push('\n');
            } else {
                out.push(cs[i]);
            }
            i += 1;
        }
        assert(out@ + normalized(cs@.skip(i as int)) =~= normalized(chunk@));
    }
    assert(cs@.skip(i as int) =~= Seq::<char>::empty());
    assert(out@ + Seq::<char>::empty() =~= out@);
    string_of(&out)
}

/// `<folder>/<name>.<ext>`.
pub open spec fn output_path(folder: Seq<char>, name: Seq<char>, ext: Seq<char>) -> Seq<char> {
    folder + "/"@ + name + "."@ + ext
}

/// The encoder's arguments: global flags, pre-input arguments, the input,
/// output arguments and filters, the output file.
pub open spec fn command_line(s: BuilderView, input: Seq<char>, output: Seq<char>) -> Seq<Seq<char>> {
    seq!["-y"@, "-hide_banner"@] + s.pre_input_args + seq!["-i"@, input] + output_args(s) + seq![output]
}

pub fn output_file(folder: &str, name: &str, ext: &str) -> (r: String)
    ensures
        r@ == output_path(folder@, name@, ext@),
{
    let a = cat(folder, "/");
    let b = cat(a.as_str(), name);
    let c = cat(b.as_str(), ".");
    cat(c.as_str(), ext)
}

/// The argument vector for a builder that has visited the parameters.
pub fn command_args(cb: &CommandBuilder, input: &str, output: &str) -> (r: Vec<String>)
    ensures
        texts(r@) == command_line(cb@, input@, output@),
{
    let mut r: Vec<String> = Vec::new();
    push_str(&mut r, "-y");
    push_str(&mut r, "-hide_banner");
    append_texts(&mut r, &cb.pre_input_args);
    push_str(&mut r, "-i");
    push_str(&mut r, input);
    let tail = cb.build_args();
    append_texts(&mut r, &tail);
    push_str(&mut r, output);
    assert(texts(r@) =~= command_line(cb@, input@, output@));
    r
}

/// The encoder's argument vector for the parameter set: the enabled
/// parameters are visited in synthesis order (unique, see
/// `lemma_synthesis_order_unique`), and the output file is
/// `<folder>/<name>.<ext>` with the extension of the chosen format.
pub fn render_command(params: &Vec<Parameter>, input: &str, folder: &str, name: &str) -> (r: Vec<String>)
    ensures
        exists|q: Seq<usize>| {
            let s = #[trigger] finalize(run(initial_view(), params@, q));
            is_synthesis_order(params@, q) && texts(r@) == command_line(s, input@, output_path(folder@, name@, s.ext))
        },
{
    let mut cb = CommandBuilder::new();
    apply_visitor(&mut cb, params);
    let out = output_file(folder, name, cb.ext.as_str());
    command_args(&cb, input, out.as_str())
}

/// Where a render stands, as the control thread sees it.
pub struct RenderSupervisor {
    /// A render was started and its completion not yet received.
    pub running: bool,
    /// The control thread holds the running encoder's input stream.
    pub has_input: bool,
}

/// What the control thread does when the user asks to stop.
#[derive(Debug, Clone, Copy, PartialEq, Eq, Structural)]
pub enum CancelAction {
    /// Write the stop command to the encoder's input and show `stop_text`.
    SendStop,
    /// No render can be stopped: leave the application.
    Quit,
}

/// An event of one render, from the worker that owns the encoder process.
pub enum RenderEvent {
    /// The process runs; its input stream was handed over.
    Started,
    OutputAppended(String),
    Completed(bool),
}

pub open spec fn completion_text(success: bool) -> Seq<char> {
    if success { "FFmpeg finished successfully!\n\n"@ } else { "FFmpeg encountered an error.\n\n"@ }
}

pub open spec fn spawn_failure_text(err: Seq<char>) -> Seq<char> {
    "Failed to start FFmpeg: "@ + err + "\n"@
}

/// What the output pane shows when a render starts.
pub fn start_text() -> (r: &'static str)
    ensures
        r@ == "Starting FFmpeg...\n"@,
{
    "Starting FFmpeg...\n"
}

/// What the output pane shows when the stop command was sent.
pub fn stop_text() -> (r: &'static str)
    ensures
        r@ == "Stopping...\n"@,
{
    "Stopping...\n"
}

/// The command that makes the encoder finish gracefully.
pub fn stop_command() -> (r: &'static str)
    ensures
        r@ == "q"@,
{
    "q"
}

/// The events of a render whose process could not be spawned: the error
/// text, then a failed completion; no start.
pub fn spawn_failure_events(err: &str) -> (r: Vec<RenderEvent>)
    ensures
        r@.len() == 2,
        r@[0] matches RenderEvent::OutputAppended(t) && t@ == spawn_failure_text(err@),
        r@[1] == RenderEvent::Completed(false),
{
    let a = cat("Failed to start FFmpeg: ", err);
    let t = cat(a.as_str(), "\n");
    vec![RenderEvent::OutputAppended(t), RenderEvent::Completed(false)]
}

/// The event for a chunk of the encoder's error stream.
pub fn output_event(chunk: &str) -> (r: RenderEvent)
    ensures
        r matches RenderEvent::OutputAppended(t) && t@ == normalized(chunk@),
{
    RenderEvent::OutputAppended(normalize_newlines(chunk))
}

/// The event once the process ended: success only for an exit status that
/// was obtained and reports success.
pub fn exit_event(status: Option<bool>) -> (r: RenderEvent)
    ensures
        r == RenderEvent::Completed(status == Some(true)),
{
    match status {
        Some(true) => RenderEvent::Completed(true),
        _ => RenderEvent::Completed(false),
    }
}

impl RenderSupervisor {
    pub fn new() -> (r: RenderSupervisor)
        ensures
            !r.running,
            !r.has_input,
    {
        RenderSupervisor { running: false, has_input: false }
    }

    /// A render request. Gives `true` when a new render is to be spawned;
    /// while one runs, the request changes nothing.
    pub fn request_render(&mut self) -> (start: bool)
        ensures
            start == !old(self).running,
            start ==> final(self).running && !final(self).has_input,
            !start ==> *final(self) == *old(self),
    {
        if self.running {
            return false;
        }
        self.running = true;
        self.has_input = false;
        true
    }

    /// The worker started the process and hands over its input stream; the
    /// control thread keeps it while the render runs.
    pub fn on_started(&mut self) -> (keep: bool)
        ensures
            keep == old(self).running,
            final(self).running == old(self).running,
            final(self).has_input == (old(self).has_input || old(self).running),
    {
        if self.running {
            self.has_input = true;
        }
        self.running
    }

    /// The render ended: the input stream is dropped and a new render may
    /// start. Gives the text to show.
    pub fn on_completed(&mut self, success: bool) -> (msg: String)
        ensures
            !final(self).running,
            !final(self).has_input,
            msg@ == completion_text(success),
    {
        self.running = false;
        self.has_input = false;
        if success {
            owned("FFmpeg finished successfully!\n\n")
        } else {
            owned("FFmpeg encountered an error.\n\n")
        }
    }

    /// The user asks to stop. A running render whose input stream is held
    /// gets the stop command once (the stream is given up); otherwise the
    /// application quits.
    pub fn on_cancel(&mut self) -> (a: CancelAction)
        ensures
            old(self).running && old(self).has_input ==> a == CancelAction::SendStop && final(self).running
                && !final(self).has_input,
            !(old(self).running && old(self).has_input) ==> a == CancelAction::Quit && *final(self) == *old(self),
    {
        if self.running && self.has_input {
            self.has_input = false;
            CancelAction::SendStop
        } else {
            CancelAction::Quit
        }
    }
}

} // verus!
