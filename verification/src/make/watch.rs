//! Watching for changes, and reading the output of the build tool.

use crate::make::compile::same_text;
use vstd::prelude::*;

verus! {

/// Decides which of the events that arrive in quick succession are passed on.
#[derive(Debug, Clone, Copy, PartialEq, Eq, Structural)]
pub struct EventForwarder {
    /// How long after an event that was passed on the next ones are dropped,
    /// in milliseconds.
    pub debounce_millis: u64,
    /// When an event was last passed on, in milliseconds.
    pub last_run: Option<u64>,
}

impl EventForwarder {
    /// Is an event at `now` passed on? The first is; a later one is where
    /// more than the time of the debounce has gone by since the last that was.
    pub open spec fn passes(self, now: u64) -> bool {
        match self.last_run {
            Some(last_run) => now > last_run && now - last_run > self.debounce_millis,
            None => true,
        }
    }

    /// A forwarder that has passed nothing on yet.
    pub fn new() -> (forwarder: EventForwarder)
        ensures
            forwarder.last_run is None,
            forwarder.debounce_millis == 100,
    {
        // Debounce 100ms seems reasonable
        EventForwarder { debounce_millis: 100, last_run: None }
    }

    /// Whether the event that arrives at `now_millis` is to be passed on.
    pub fn handle_event(&mut self, now_millis: u64) -> (forward: bool)
        ensures
            forward == old(self).passes(now_millis),
            final(self).debounce_millis == old(self).debounce_millis,
            final(self).last_run == (if forward {
                Some(now_millis)
            } else {
                old(self).last_run
            }),
    {
        let forward = match self.last_run {
            Some(last_run) => now_millis > last_run && now_millis - last_run > self.debounce_millis,
            None => true,
        };
        if forward {
            self.last_run = Some(now_millis);
        }
        forward
    }
}

/// Is a change worth a new build? A change of one file is, where the file is
/// a source file or a configuration file.
pub open spec fn worth_a_build(is_modification: bool, paths: nat, extension: Option<Seq<char>>) -> bool {
    is_modification && paths == 1 && (extension == Some("ditto"@) || extension == Some("toml"@))
}

/// See [`worth_a_build`].
pub fn should_rebuild(is_modification: bool, paths: usize, extension: Option<&str>) -> (rebuild:
    bool)
    ensures
        rebuild == worth_a_build(
            is_modification,
            paths as nat,
            match extension {
                Some(extension) => Some(extension@),
                None => None,
            },
        ),
{
    if !is_modification || paths != 1 {
        return false;
    }
    match extension {
        Some(extension) => same_text(extension, "ditto") || same_text(extension, "toml"),
        None => false,
    }
}

/// What a line of the build tool's output is.
#[derive(Debug, Clone, Copy, PartialEq, Eq, Structural)]
pub enum NinjaLine {
    /// The status of the build, behind the mark that the tool is told to put
    /// before it.
    Status,
    /// The notice that the build stopped because a command failed.
    BuildStopped,
    /// The notice that a command failed: the line behind it repeats the command.
    Failed,
    /// Output of a command.
    Output,
}

/// The mark that the build tool puts before its status.
pub const NINJA_STATUS_MESSAGE: &'static str = "__NINJA";

/// Does `text` start with `prefix`?
pub fn starts_with(text: &str, prefix: &str) -> (found: bool)
    ensures
        found == prefix@.is_prefix_of(text@),
{
    let n = prefix.unicode_len();
    if text.unicode_len() < n {
        return false;
    }
    let mut i: usize = 0;
    while i < n
        invariant
            n == prefix@.len(),
            n <= text@.len(),
            i <= n,
            forall|j: int| 0 <= j < i ==> text@[j] == prefix@[j],
        decreases n - i,
    {
        if text.get_char(i) != prefix.get_char(i) {
            assert(text@.subrange(0, n as int)[i as int] != prefix@[i as int]);
            return false;
        }
        i += 1;
    }
    assert(text@.subrange(0, n as int) =~= prefix@);
    true
}

/// What a line is, given the line and the line without its colour codes.
pub open spec fn ninja_line(line: Seq<char>, plain: Seq<char>) -> NinjaLine {
    if NINJA_STATUS_MESSAGE@.is_prefix_of(line) {
        NinjaLine::Status
    } else if "ninja: build stopped: subcommand failed"@.is_prefix_of(line) {
        NinjaLine::BuildStopped
    } else if "FAILED"@.is_prefix_of(plain) {
        NinjaLine::Failed
    } else {
        NinjaLine::Output
    }
}

/// See [`ninja_line`].
pub fn classify_ninja_line(line: &str, plain: &str) -> (kind: NinjaLine)
    ensures
        kind == ninja_line(line@, plain@),
{
    if starts_with(line, NINJA_STATUS_MESSAGE) {
        NinjaLine::Status
    } else if starts_with(line, "ninja: build stopped: subcommand failed") {
        NinjaLine::BuildStopped
    } else if starts_with(plain, "FAILED") {
        NinjaLine::Failed
    } else {
        NinjaLine::Output
    }
}

/// Does the build tool's first line say that there is nothing to build?
pub fn nothing_to_do(first_line: &str) -> (nothing: bool)
    ensures
        nothing == "ninja: no work to do"@.is_prefix_of(first_line@),
{
    starts_with(first_line, "ninja: no work to do")
}

/// Where the forwarding of the build tool's output stands.
#[derive(Debug, Clone, Copy, PartialEq, Eq, Structural)]
pub struct Forwarding {
    /// The next line repeats a failed command and is dropped.
    pub drop_next: bool,
    /// Output of a command was passed on before.
    pub passed_output: bool,
}

/// What to do with a line of the build tool's output.
#[derive(Debug, Clone, Copy, PartialEq, Eq, Structural)]
pub enum LineAction {
    /// Pass the line on as status, without the mark before it.
    Status,
    /// Pass nothing on.
    Drop,
    /// Pass the line on as output, behind a blank line where it is the first.
    Output { blank_line_first: bool },
}

/// Before the first line.
pub open spec fn forwarding_start() -> Forwarding {
    Forwarding { drop_next: false, passed_output: false }
}

/// What becomes of a line of the kind `kind`: the line behind the notice of
/// a failed command is dropped, whatever it is; status is passed on; the
/// notices themselves are dropped; output is passed on, the first of it
/// behind a blank line.
pub open spec fn forwarded(state: Forwarding, kind: NinjaLine) -> (Forwarding, LineAction) {
    if state.drop_next {
        (Forwarding { drop_next: false, ..state }, LineAction::Drop)
    } else {
        match kind {
            NinjaLine::Status => (state, LineAction::Status),
            NinjaLine::BuildStopped => (state, LineAction::Drop),
            NinjaLine::Failed => (Forwarding { drop_next: true, ..state }, LineAction::Drop),
            NinjaLine::Output => (
                Forwarding { passed_output: true, ..state },
                LineAction::Output { blank_line_first: !state.passed_output },
            ),
        }
    }
}

impl Forwarding {
    /// Before the first line.
    pub fn new() -> (state: Forwarding)
        ensures
            state == forwarding_start(),
    {
        Forwarding { drop_next: false, passed_output: false }
    }

    /// Take the next line, given as it came and without its colour codes:
    /// what to do with it, and where the forwarding stands behind it.
    pub fn step(self, line: &str, plain: &str) -> (next: (Forwarding, LineAction))
        ensures
            next == forwarded(self, ninja_line(line@, plain@)),
    {
        if self.drop_next {
            return (
                Forwarding { drop_next: false, passed_output: self.passed_output },
                LineAction::Drop,
            );
        }
        match classify_ninja_line(line, plain) {
            NinjaLine::Status => (self, LineAction::Status),
            NinjaLine::BuildStopped => (self, LineAction::Drop),
            NinjaLine::Failed => (
                Forwarding { drop_next: true, passed_output: self.passed_output },
                LineAction::Drop,
            ),
            NinjaLine::Output => (
                Forwarding { drop_next: self.drop_next, passed_output: true },
                LineAction::Output { blank_line_first: !self.passed_output },
            ),
        }
    }
}

/// Output is passed on behind a blank line once: where output was passed on
/// before, no line asks for a blank line again.
pub proof fn lemma_one_blank_line(state: Forwarding, kind: NinjaLine)
    requires
        state.passed_output,
    ensures
        forwarded(state, kind).0.passed_output,
        !(forwarded(state, kind).1 matches LineAction::Output { blank_line_first: true }),
{
}

/// What is said when the build tool is done.
#[derive(Debug, Clone, Copy, PartialEq, Eq, Structural)]
pub enum Closing {
    /// The warnings that the build left.
    Warnings,
    /// That there was nothing to do.
    NothingToDo,
    /// Nothing.
    Nothing,
}

/// What is said when the build tool is done: the warnings where there are
/// any and nothing went wrong; that there was nothing to do, where that is
/// so and no warning is left; else nothing.
pub open spec fn closing_of(idle: bool, succeeded: bool, warnings: nat) -> Closing {
    if idle {
        if warnings > 0 {
            Closing::Warnings
        } else {
            Closing::NothingToDo
        }
    } else if succeeded && warnings > 0 {
        Closing::Warnings
    } else {
        Closing::Nothing
    }
}

/// See [`closing_of`]. `idle` says that the build tool found nothing to do,
/// `succeeded` that it ended well, `warnings` how many warnings are left.
pub fn closing(idle: bool, succeeded: bool, warnings: usize) -> (said: Closing)
    ensures
        said == closing_of(idle, succeeded, warnings as nat),
{
    if idle {
        if warnings > 0 {
            Closing::Warnings
        } else {
            Closing::NothingToDo
        }
    } else if succeeded && warnings > 0 {
        Closing::Warnings
    } else {
        Closing::Nothing
    }
}

} // verus!
