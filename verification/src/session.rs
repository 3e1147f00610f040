//! The session state machine: the in-progress input buffer, the append-only
//! history log, and the transitions taken on each physical line the user
//! submits, with the round-trip law tying dispatched commands to history.

use vstd::prelude::*;
use vstd::string::StrSliceExecFns;
use vstd::string::StringExecFns;
use crate::meta::MetaCommand;
use crate::meta::MetaCommandView;
use crate::repl::Completeness;
use crate::repl::CommandType;
use crate::repl::CommandTypeView;
use crate::repl::get_command_type;
use crate::repl::is_complete;
use crate::repl::spec_command_type;
use crate::repl::spec_is_complete;
use crate::text::trimmed;
use crate::text::trimmed_str;

verus! {

/// One interactive session: the buffer of the command being assembled, the
/// ordered log of commands submitted so far, and whether the session has
/// reached its terminal state.
pub struct Session {
    buffer: String,
    history: Vec<String>,
    terminated: bool,
}

/// The mathematical shape of a `Session`.
#[verifier::ext_equal]
pub struct SessionView {
    pub buffer: Seq<char>,
    pub history: Seq<Seq<char>>,
    pub terminated: bool,
}

impl View for Session {
    type V = SessionView;

    closed spec fn view(&self) -> SessionView {
        SessionView {
            buffer: self.buffer@,
            history: self.history@.map_values(|entry: String| entry@),
            terminated: self.terminated,
        }
    }
}

/// What feeding one physical line does to a session: the line is appended to
/// the buffer with no separator; a complete buffer is recorded in the history
/// verbatim and cleared, and the session terminates exactly when the trimmed
/// command classifies as the administrative Exit; an incomplete buffer is
/// kept for the next line.
pub open spec fn spec_feed(s: SessionView, line: Seq<char>) -> SessionView {
    let assembled = s.buffer + line;
    if spec_is_complete(assembled) {
        SessionView {
            buffer: Seq::empty(),
            history: s.history.push(assembled),
            terminated: spec_command_type(trimmed(assembled)) == CommandTypeView::MetaCommand(
                MetaCommandView::Exit,
            ),
        }
    } else {
        SessionView { buffer: assembled, history: s.history, terminated: s.terminated }
    }
}

/// The command a session dispatches on one physical line, if any: the
/// assembled buffer, exactly when it is complete.
pub open spec fn spec_dispatched(s: SessionView, line: Seq<char>) -> Option<Seq<char>> {
    if spec_is_complete(s.buffer + line) {
        Option::Some(s.buffer + line)
    } else {
        Option::None
    }
}

/// The session state after feeding a sequence of physical lines, stopping at
/// the terminal state.
pub open spec fn spec_run(s: SessionView, lines: Seq<Seq<char>>) -> SessionView
    decreases lines.len(),
{
    if lines.len() == 0 || s.terminated {
        s
    } else {
        spec_run(spec_feed(s, lines[0]), lines.skip(1))
    }
}

/// The logical commands a session dispatches over a sequence of physical
/// lines, in submission order.
pub open spec fn spec_run_dispatched(s: SessionView, lines: Seq<Seq<char>>) -> Seq<Seq<char>>
    decreases lines.len(),
{
    if lines.len() == 0 || s.terminated {
        Seq::empty()
    } else {
        let rest = spec_run_dispatched(spec_feed(s, lines[0]), lines.skip(1));
        match spec_dispatched(s, lines[0]) {
            Option::Some(cmd) => seq![cmd] + rest,
            Option::None => rest,
        }
    }
}

/// What the session loop reports back after one physical line.
#[derive(Debug, PartialEq)]
pub enum FeedOutcome {
    /// The buffer is not a complete command yet: re-prompt with the
    /// continuation prompt and append the next line.
    Continue,
    /// A complete command was assembled, recorded in the history, and
    /// classified: dispatch it to the matching handler.
    Dispatch(CommandType),
}

impl Session {
    /// A fresh session: empty buffer, empty history, not terminated.
    pub fn new() -> (s: Session)
        ensures
            s@.buffer == Seq::<char>::empty(),
            s@.history == Seq::<Seq<char>>::empty(),
            !s@.terminated,
    {
        let s = Session { buffer: String::new(), history: Vec::new(), terminated: false };
        proof {
            assert(s@.history =~= Seq::<Seq<char>>::empty());
        }
        s
    }

    /// A session whose history was restored from persistent storage, in
    /// order; the buffer starts empty.
    pub fn with_history(entries: Vec<String>) -> (s: Session)
        ensures
            s@.buffer == Seq::<char>::empty(),
            s@.history == entries@.map_values(|entry: String| entry@),
            !s@.terminated,
    {
        Session { buffer: String::new(), history: entries, terminated: false }
    }

    /// Feed one physical line of user input to the session. Either the
    /// assembled buffer is still incomplete and the loop should keep reading,
    /// or the logical command is complete: it is appended to the history
    /// exactly once, verbatim, the buffer is cleared, and its trimmed text is
    /// classified for dispatch.
    pub fn feed_line(&mut self, line: &str) -> (r: FeedOutcome)
        requires
            !old(self)@.terminated,
        ensures
            final(self)@ == spec_feed(old(self)@, line@),
            (r is Dispatch) == spec_is_complete(old(self)@.buffer + line@),
            r matches FeedOutcome::Dispatch(cmd) ==> cmd@ == spec_command_type(
                trimmed(old(self)@.buffer + line@),
            ),
    {
        self.buffer.append(line);
        match is_complete(self.buffer.as_str()) {
            Completeness::Incomplete => {
                proof {
                    assert(self@ =~= spec_feed(old(self)@, line@));
                }
                FeedOutcome::Continue
            },
            Completeness::Complete => {
                let raw = self.buffer.clone();
                self.buffer = String::new();
                let trimmed_text = trimmed_str(raw.as_str());
                let cmd = get_command_type(&trimmed_text);
                let is_exit = matches!(cmd, CommandType::MetaCommand(MetaCommand::Exit));
                self.terminated = is_exit;
                self.history.push(raw);
                proof {
                    let assembled = old(self)@.buffer + line@;
                    assert(self.history@.map_values(|entry: String| entry@) =~= old(
                        self,
                    )@.history.push(assembled));
                    assert(self@ =~= spec_feed(old(self)@, line@));
                }
                FeedOutcome::Dispatch(cmd)
            },
        }
    }

    /// End of input or an interrupt: the session terminates without
    /// dispatching a partial command; the buffer is discarded and the history
    /// is kept.
    pub fn end_input(&mut self)
        ensures
            final(self)@.buffer == Seq::<char>::empty(),
            final(self)@.history == old(self)@.history,
            final(self)@.terminated,
    {
        self.buffer = String::new();
        self.terminated = true;
    }

    /// Whether the session has reached its terminal state.
    pub fn is_terminated(&self) -> (r: bool)
        ensures
            r == self@.terminated,
    {
        self.terminated
    }

    /// Whether a logical command is in progress: the continuation prompt is
    /// shown exactly when the buffer is non-empty.
    pub fn is_reading(&self) -> (r: bool)
        ensures
            r == (self@.buffer.len() > 0),
    {
        self.buffer.unicode_len() > 0
    }

    /// The history log, one raw command per entry, in submission order.
    pub fn history(&self) -> (h: &Vec<String>)
        ensures
            h@.len() == self@.history.len(),
            forall|i: int| 0 <= i < h@.len() ==> h@[i]@ == self@.history[i],
    {
        &self.history
    }
}

/// The round-trip law: over any run of physical lines, every logical command
/// dispatched — success or failure plays no part — appears in the history
/// exactly once, verbatim, in submission order: the final history is the
/// starting history followed by exactly the dispatched commands.
pub proof fn lemma_history_round_trip(s: SessionView, lines: Seq<Seq<char>>)
    ensures
        spec_run(s, lines).history == s.history + spec_run_dispatched(s, lines),
    decreases lines.len(),
{
    if lines.len() == 0 || s.terminated {
        assert(s.history + Seq::<Seq<char>>::empty() =~= s.history);
    } else {
        let stepped = spec_feed(s, lines[0]);
        lemma_history_round_trip(stepped, lines.skip(1));
        let rest = spec_run_dispatched(stepped, lines.skip(1));
        if spec_is_complete(s.buffer + lines[0]) {
            let cmd = s.buffer + lines[0];
            assert(s.history.push(cmd) + rest =~= s.history + (seq![cmd] + rest));
        } else {
            assert(s.history + rest =~= s.history + rest);
        }
    }
}

} // verus!
